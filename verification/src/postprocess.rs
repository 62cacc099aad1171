//! Post-processing of LLM output: the last safety net against "format
//! pollution", where a model echoes its input tags, adds an `Output:` label
//! or wraps its answer in blank lines.
use vstd::prelude::*;
use crate::text::{
    strip_repeated, strip_repeated_exec,
    is_trimmed, lemma_trim_is_trimmed, lemma_trimmed_fixed,
    begins_with, chars_of, extend_range, find, find_chars, find_chars_from, find_from, lemma_find_from,
    slice_range, starts_with, string_of, trim, trim_chars, trim_start, trim_start_chars,
    trim_end, lemma_trim_start_shape, lemma_trim_end_shape, matches_at, is_ws,
};

verus! {

/// The tag that opens the block of raw input handed to the model.
pub open spec fn open_tag() -> Seq<char> {
    "[INPUT_TEXT]"@
}

/// The tag that closes the block of raw input handed to the model.
pub open spec fn close_tag() -> Seq<char> {
    "[/INPUT_TEXT]"@
}

/// `s` without the block that opens at `a` and whose closing tag starts at
/// `b`, together with one newline just before it and one just after it.
pub open spec fn remove_block(s: Seq<char>, a: int, b: int) -> Seq<char> {
    let e = b + close_tag().len();
    let rs = if a > 0 && s[a - 1] == '\n' {
        a - 1
    } else {
        a
    };
    let re = if e < s.len() && s[e] == '\n' {
        e + 1
    } else {
        e
    };
    s.subrange(0, rs) + s.subrange(re, s.len() as int)
}

/// Step 1: removes complete `[INPUT_TEXT]…[/INPUT_TEXT]` blocks, one at a
/// time, as long as the first opening tag comes no later than the first
/// closing tag.
pub open spec fn strip_blocks(s: Seq<char>) -> Seq<char>
    decreases s.len(),
{
    match (find(s, open_tag()), find(s, close_tag())) {
        (Some(a), Some(b)) => if a <= b {
            proof {
                lemma_remove_block_shrinks(s, a, b);
            }
            strip_blocks(remove_block(s, a, b))
        } else {
            s
        },
        _ => s,
    }
}

/// Removing a found block makes the text shorter.
pub proof fn lemma_remove_block_shrinks(s: Seq<char>, a: int, b: int)
    requires
        find(s, open_tag()) == Some(a),
        find(s, close_tag()) == Some(b),
        a <= b,
    ensures
        remove_block(s, a, b).len() < s.len(),
        0 <= a,
        b + close_tag().len() <= s.len(),
{
    lemma_find_from(s, open_tag(), 0);
    lemma_find_from(s, close_tag(), 0);
    reveal_strlit("[/INPUT_TEXT]");
}

/// `s[k..]` with every occurrence of `p` removed, searching left to right
/// and resuming after each match, as `str::replace(p, "")` does.
pub open spec fn remove_all_from(s: Seq<char>, p: Seq<char>, k: int) -> Seq<char>
    decreases s.len() + 1 - k,
{
    if k < 0 || k > s.len() || p.len() == 0 {
        Seq::empty()
    } else {
        match find_from(s, p, k) {
            None => s.subrange(k, s.len() as int),
            Some(i) => {
                proof {
                    lemma_find_from(s, p, k);
                }
                s.subrange(k, i) + remove_all_from(s, p, i + p.len())
            },
        }
    }
}

/// `s` with every occurrence of `p` removed.
pub open spec fn remove_all(s: Seq<char>, p: Seq<char>) -> Seq<char> {
    remove_all_from(s, p, 0)
}

/// Step 2: removes the tags that are left without a partner.
pub open spec fn strip_lone_tags(s: Seq<char>) -> Seq<char> {
    remove_all(remove_all(s, open_tag()), close_tag())
}

/// A line without one trailing carriage return.
pub open spec fn strip_cr(l: Seq<char>) -> Seq<char> {
    if l.len() > 0 && l.last() == '\r' {
        l.drop_last()
    } else {
        l
    }
}

/// The lines of `s[k..]` as `str::lines` gives them: split after each
/// `\n`, with the `\n` and one `\r` before it removed; no empty line after a
/// final `\n`.
pub open spec fn split_lines_from(s: Seq<char>, k: int) -> Seq<Seq<char>>
    decreases s.len() - k,
{
    if k < 0 || k >= s.len() {
        Seq::empty()
    } else {
        match find_from(s, seq!['\n'], k) {
            None => seq![s.subrange(k, s.len() as int)],
            Some(i) => {
                proof {
                    lemma_find_from(s, seq!['\n'], k);
                }
                seq![strip_cr(s.subrange(k, i))] + split_lines_from(s, i + 1)
            },
        }
    }
}

/// The lines of `s`.
pub open spec fn split_lines(s: Seq<char>) -> Seq<Seq<char>> {
    split_lines_from(s, 0)
}

/// The lines joined with `\n`.
pub open spec fn join_lines(ls: Seq<Seq<char>>) -> Seq<char>
    decreases ls.len(),
{
    if ls.len() == 0 {
        Seq::empty()
    } else if ls.len() == 1 {
        ls[0]
    } else {
        join_lines(ls.drop_last()) + seq!['\n'] + ls.last()
    }
}

/// The index of the first line at or after `i` that holds more than white space.
pub open spec fn first_content_from(ls: Seq<Seq<char>>, i: int) -> Option<int>
    decreases ls.len() - i,
{
    if i < 0 || i >= ls.len() {
        None
    } else if trim(ls[i]).len() > 0 {
        Some(i)
    } else {
        first_content_from(ls, i + 1)
    }
}

/// The number of label prefixes.
pub open spec fn label_count() -> int {
    15
}

/// The label prefixes, in the order in which they are tried.
pub open spec fn label_prefix(k: int) -> Seq<char> {
    if k == 0 {
        "Output:"@
    } else if k == 1 {
        "output:"@
    } else if k == 2 {
        "OUTPUT:"@
    } else if k == 3 {
        "Result:"@
    } else if k == 4 {
        "result:"@
    } else if k == 5 {
        "Input:"@
    } else if k == 6 {
        "input:"@
    } else if k == 7 {
        "润色结果："@
    } else if k == 8 {
        "润色结果:"@
    } else if k == 9 {
        "润色："@
    } else if k == 10 {
        "润色:"@
    } else if k == 11 {
        "答："@
    } else if k == 12 {
        "答:"@
    } else if k == 13 {
        "A:"@
    } else {
        "A："@
    }
}

/// The first label, from the `k`-th on, that `line` begins with.
pub open spec fn first_label_from(line: Seq<char>, k: int) -> Option<int>
    decreases label_count() - k,
{
    if k < 0 || k >= label_count() {
        None
    } else if starts_with(line, label_prefix(k)) {
        Some(k)
    } else {
        first_label_from(line, k + 1)
    }
}

/// What `clean_llm_output` returns for `text`.
pub open spec fn clean_spec(text: Seq<char>) -> Seq<char> {
    let r = strip_lone_tags(strip_blocks(text));
    let ls = split_lines(r);
    match first_content_from(ls, 0) {
        Some(idx) => match first_label_from(trim_start(ls[idx]), 0) {
            Some(k) => trim(
                join_lines(
                    ls.update(
                        idx,
                        trim_start(strip_repeated(trim_start(ls[idx]), label_prefix(k))),
                    ),
                ),
            ),
            None => trim(r),
        },
        None => trim(r),
    }
}

/// Step 1, computed.
fn strip_blocks_exec(text: &[char]) -> (r: Vec<char>)
    ensures
        r@ == strip_blocks(text@),
{
    let open = chars_of("[INPUT_TEXT]");
    let close = chars_of("[/INPUT_TEXT]");
    let mut r = slice_range(text, 0, text.len());
    assert(r@ =~= text@);
    loop
        invariant_except_break
            strip_blocks(r@) == strip_blocks(text@),
            open@ == open_tag(),
            close@ == close_tag(),
        ensures
            r@ == strip_blocks(text@),
        decreases r.len(),
    {
        let st = find_chars(&r, &open);
        let en = find_chars(&r, &close);
        match (st, en) {
            (Some(a), Some(b)) => {
                if a <= b {
                    proof {
                        lemma_remove_block_shrinks(r@, a as int, b as int);
                        reveal_strlit("[/INPUT_TEXT]");
                    }
                    let e = b + close.len();
                    let rs = if a > 0 && r[a - 1] == '\n' {
                        a - 1
                    } else {
                        a
                    };
                    let re = if e < r.len() && r[e] == '\n' {
                        e + 1
                    } else {
                        e
                    };
                    let mut next = slice_range(&r, 0, rs);
                    extend_range(&mut next, &r, re, r.len());
                    assert(next@ =~= remove_block(r@, a as int, b as int));
                    r = next;
                } else {
                    break;
                }
            },
            _ => {
                break;
            },
        }
    }
    r
}

/// `s` with every occurrence of the non-empty `p` removed.
fn remove_all_exec(s: &[char], p: &[char]) -> (r: Vec<char>)
    requires
        p.len() > 0,
    ensures
        r@ == remove_all(s@, p@),
{
    let mut out: Vec<char> = Vec::new();
    let mut k: usize = 0;
    loop
        invariant_except_break
            k <= s.len(),
            p.len() > 0,
            out@ + remove_all_from(s@, p@, k as int) == remove_all(s@, p@),
        ensures
            out@ == remove_all(s@, p@),
        decreases s.len() - k,
    {
        match find_chars_from(s, p, k) {
            None => {
                extend_range(&mut out, s, k, s.len());
                assert(out@ =~= remove_all(s@, p@));
                break;
            },
            Some(i) => {
                proof {
                    lemma_find_from(s@, p@, k as int);
                }
                let ghost before = out@;
                let ghost k0 = k as int;
                assert(remove_all_from(s@, p@, k0) == s@.subrange(k0, i as int)
                    + remove_all_from(s@, p@, i + p.len()));
                extend_range(&mut out, s, k, i);
                k = i + p.len();
                assert(out@ + remove_all_from(s@, p@, k as int) =~= before + remove_all_from(
                    s@,
                    p@,
                    k0,
                ));
            },
        }
    }
    out
}

/// The view of a vector of lines.
pub open spec fn lines_view(v: Seq<Vec<char>>) -> Seq<Seq<char>> {
    Seq::new(v.len(), |i: int| v[i]@)
}

/// A line without one trailing carriage return, computed.
fn strip_cr_exec(l: Vec<char>) -> (r: Vec<char>)
    ensures
        r@ == strip_cr(l@),
{
    let mut l = l;
    if l.len() > 0 && l[l.len() - 1] == '\r' {
        l.pop();
    }
    l
}

/// The lines of `s`, computed.
fn split_lines_exec(s: &[char]) -> (r: Vec<Vec<char>>)
    ensures
        lines_view(r@) == split_lines(s@),
{
    let nl: Vec<char> = vec!['\n'];
    let mut r: Vec<Vec<char>> = Vec::new();
    let mut k: usize = 0;
    while k < s.len()
        invariant
            k <= s.len(),
            nl@ == seq!['\n'],
            lines_view(r@) + split_lines_from(s@, k as int) == split_lines(s@),
        decreases s.len() - k,
    {
        let ghost rv = lines_view(r@);
        match find_chars_from(s, &nl, k) {
            None => {
                let line = slice_range(s, k, s.len());
                r.push(line);
                assert(lines_view(r@) =~= rv + seq![s@.subrange(k as int, s.len() as int)]);
                k = s.len();
                assert(split_lines_from(s@, k as int) =~= Seq::<Seq<char>>::empty());
            },
            Some(i) => {
                proof {
                    lemma_find_from(s@, seq!['\n'], k as int);
                }
                let line = strip_cr_exec(slice_range(s, k, i));
                r.push(line);
                assert(lines_view(r@) =~= rv + seq![strip_cr(s@.subrange(k as int, i as int))]);
                k = i + 1;
            },
        }
    }
    assert(split_lines_from(s@, k as int) =~= Seq::<Seq<char>>::empty());
    assert(lines_view(r@) =~= lines_view(r@) + Seq::<Seq<char>>::empty());
    r
}

/// The index of the first line that holds more than white space.
fn first_content_exec(ls: &Vec<Vec<char>>) -> (r: Option<usize>)
    ensures
        r matches Some(i) ==> i < ls.len() && first_content_from(lines_view(ls@), 0) == Some(
            i as int,
        ),
        r is None ==> first_content_from(lines_view(ls@), 0) is None,
{
    let mut i: usize = 0;
    while i < ls.len()
        invariant
            i <= ls.len(),
            first_content_from(lines_view(ls@), 0) == first_content_from(lines_view(ls@), i as int),
        decreases ls.len() - i,
    {
        let t = trim_chars(&ls[i]);
        assert(lines_view(ls@)[i as int] == ls@[i as int]@);
        if t.len() > 0 {
            return Some(i);
        }
        i = i + 1;
    }
    None
}

/// The label prefixes, in the order in which they are tried.
fn label_prefix_str(k: usize) -> (r: &'static str)
    requires
        k < 15,
    ensures
        r@ == label_prefix(k as int),
{
    if k == 0 {
        "Output:"
    } else if k == 1 {
        "output:"
    } else if k == 2 {
        "OUTPUT:"
    } else if k == 3 {
        "Result:"
    } else if k == 4 {
        "result:"
    } else if k == 5 {
        "Input:"
    } else if k == 6 {
        "input:"
    } else if k == 7 {
        "润色结果："
    } else if k == 8 {
        "润色结果:"
    } else if k == 9 {
        "润色："
    } else if k == 10 {
        "润色:"
    } else if k == 11 {
        "答："
    } else if k == 12 {
        "答:"
    } else if k == 13 {
        "A:"
    } else {
        "A："
    }
}

/// The first label that `line` begins with.
fn first_label_exec(line: &[char]) -> (r: Option<usize>)
    ensures
        r matches Some(k) ==> k < 15 && first_label_from(line@, 0) == Some(k as int),
        r is None ==> first_label_from(line@, 0) is None,
{
    let mut k: usize = 0;
    while k < 15
        invariant
            k <= 15,
            first_label_from(line@, 0) == first_label_from(line@, k as int),
        decreases 15 - k,
    {
        let p = chars_of(label_prefix_str(k));
        if begins_with(line, &p) {
            return Some(k);
        }
        k = k + 1;
    }
    None
}

/// The lines joined with `\n`, computed.
fn join_lines_exec(ls: &Vec<Vec<char>>) -> (r: Vec<char>)
    ensures
        r@ == join_lines(lines_view(ls@)),
{
    let ghost lv = lines_view(ls@);
    if ls.len() == 0 {
        return Vec::new();
    }
    let mut out = slice_range(&ls[0], 0, ls[0].len());
    assert(lv.take(1) =~= seq![lv[0]]);
    assert(out@ =~= join_lines(lv.take(1)));
    let mut i: usize = 1;
    while i < ls.len()
        invariant
            1 <= i <= ls.len(),
            lv == lines_view(ls@),
            out@ == join_lines(lv.take(i as int)),
        decreases ls.len() - i,
    {
        out.push('\n');
        extend_range(&mut out, &ls[i], 0, ls[i].len());
        assert(lv.take(i + 1).drop_last() =~= lv.take(i as int));
        assert(ls[i as int]@.subrange(0, ls[i as int]@.len() as int) =~= lv[i as int]);
        i = i + 1;
        assert(out@ =~= join_lines(lv.take(i as int)));
    }
    assert(lv.take(ls.len() as int) =~= lv);
    out
}

/// Removes common LLM format artifacts from a polished text:
///
/// 1. `[INPUT_TEXT]…[/INPUT_TEXT]` blocks, with one newline on either side;
/// 2. tags left without a partner;
/// 3. a label such as `Output:` or `润色结果：` at the start of the first
///    line that holds more than white space (and only there);
/// 4. white space at either end.
pub fn clean_llm_output(text: &str) -> (r: String)
    ensures
        r@ == clean_spec(text@),
        is_trimmed(r@),
{
    proof {
        lemma_clean_is_trimmed(text@);
    }
    let t = chars_of(text);
    let open = chars_of("[INPUT_TEXT]");
    let close = chars_of("[/INPUT_TEXT]");
    proof {
        reveal_strlit("[INPUT_TEXT]");
        reveal_strlit("[/INPUT_TEXT]");
    }
    let r1 = strip_blocks_exec(&t);
    let r2 = remove_all_exec(&remove_all_exec(&r1, &open), &close);
    let mut ls = split_lines_exec(&r2);
    let ghost lv = lines_view(ls@);
    match first_content_exec(&ls) {
        None => string_of(&trim_chars(&r2)),
        Some(idx) => {
            let line = trim_start_chars(&ls[idx]);
            assert(lv[idx as int] == ls@[idx as int]@);
            match first_label_exec(&line) {
                None => string_of(&trim_chars(&r2)),
                Some(k) => {
                    let p = chars_of(label_prefix_str(k));
                    let stripped = trim_start_chars(&strip_repeated_exec(&line, &p));
                    let ghost sv = stripped@;
                    ls.set(idx, stripped);
                    assert(lines_view(ls@) =~= lv.update(idx as int, sv));
                    let joined = join_lines_exec(&ls);
                    string_of(&trim_chars(&joined))
                },
            }
        },
    }
}

/// Whatever the input, the cleaned text has no white space at either end.
pub proof fn lemma_clean_is_trimmed(text: Seq<char>)
    ensures
        is_trimmed(clean_spec(text)),
{
    let r = strip_lone_tags(strip_blocks(text));
    let ls = split_lines(r);
    lemma_trim_is_trimmed(r);
    if let Some(idx) = first_content_from(ls, 0) {
        if let Some(k) = first_label_from(trim_start(ls[idx]), 0) {
            lemma_trim_is_trimmed(
                join_lines(
                    ls.update(
                        idx,
                        trim_start(strip_repeated(trim_start(ls[idx]), label_prefix(k))),
                    ),
                ),
            );
        }
    }
}

/// The first line of `text` that holds more than white space does not
/// begin, after its leading white space, with one of the labels.
pub open spec fn no_label_on_first_line(text: Seq<char>) -> bool {
    let ls = split_lines(text);
    match first_content_from(ls, 0) {
        Some(idx) => first_label_from(trim_start(ls[idx]), 0) is None,
        None => true,
    }
}

/// Removing a pattern that does not occur changes nothing.
pub proof fn lemma_remove_absent(s: Seq<char>, p: Seq<char>)
    requires
        find(s, p) is None,
        p.len() > 0,
    ensures
        remove_all(s, p) == s,
{
    assert(s.subrange(0, s.len() as int) =~= s);
}

/// Text without input tags and without a label on its first content line
/// comes back only trimmed; text that is moreover trimmed comes back as it
/// was.
pub proof fn law_clean_leaves_clean_text(text: Seq<char>)
    requires
        find(text, open_tag()) is None,
        find(text, close_tag()) is None,
        no_label_on_first_line(text),
    ensures
        clean_spec(text) == trim(text),
        is_trimmed(text) ==> clean_spec(text) == text,
{
    reveal_strlit("[INPUT_TEXT]");
    reveal_strlit("[/INPUT_TEXT]");
    assert(strip_blocks(text) == text);
    lemma_remove_absent(text, open_tag());
    lemma_remove_absent(text, close_tag());
    if is_trimmed(text) {
        lemma_trimmed_fixed(text);
    }
}

/// Whether `p` occurs nowhere in `s`.
pub open spec fn absent(s: Seq<char>, p: Seq<char>) -> bool {
    forall|k: int| !#[trigger] matches_at(s, p, k)
}

/// A piece of a text holds nothing that the text does not.
proof fn lemma_sub_absent(s: Seq<char>, p: Seq<char>, a: int, b: int)
    requires
        absent(s, p),
        0 <= a <= b <= s.len(),
    ensures
        absent(s.subrange(a, b), p),
{
    let t = s.subrange(a, b);
    assert forall|k: int| !#[trigger] matches_at(t, p, k) by {
        if matches_at(t, p, k) {
            assert(s.subrange(a + k, a + k + p.len()) =~= t.subrange(k, k + p.len()));
            assert(matches_at(s, p, a + k));
        }
    }
}

/// Trimming keeps a pattern absent.
proof fn lemma_trim_absent(s: Seq<char>, p: Seq<char>)
    requires
        absent(s, p),
    ensures
        absent(trim_start(s), p),
        absent(trim(s), p),
{
    lemma_trim_start_shape(s);
    let t = trim_start(s);
    lemma_sub_absent(s, p, s.len() - t.len(), s.len() as int);
    assert(s.subrange(s.len() - t.len(), s.len() as int) =~= s.skip(s.len() - t.len()));
    lemma_trim_end_shape(t);
    let u = trim_end(t);
    lemma_sub_absent(t, p, 0, u.len() as int);
    assert(t.subrange(0, u.len() as int) =~= t.take(u.len() as int));
}

/// Stripping copies of a label from the start keeps a pattern absent.
proof fn lemma_strip_repeated_absent(s: Seq<char>, q: Seq<char>, p: Seq<char>)
    requires
        absent(s, p),
    ensures
        absent(strip_repeated(s, q), p),
    decreases s.len(),
{
    if q.len() > 0 && starts_with(s, q) {
        lemma_sub_absent(s, p, q.len() as int, s.len() as int);
        assert(s.subrange(q.len() as int, s.len() as int) =~= s.skip(q.len() as int));
        lemma_strip_repeated_absent(s.skip(q.len() as int), q, p);
    }
}

/// Every line of `s[k..]` leaves out what `s` leaves out.
proof fn lemma_lines_absent(s: Seq<char>, p: Seq<char>, k: int)
    requires
        absent(s, p),
    ensures
        forall|i: int|
            0 <= i < split_lines_from(s, k).len() ==> absent(#[trigger] split_lines_from(s, k)[i], p),
    decreases s.len() - k,
{
    if 0 <= k < s.len() {
        lemma_find_from(s, seq!['\n'], k);
        match find_from(s, seq!['\n'], k) {
            None => {
                lemma_sub_absent(s, p, k, s.len() as int);
            },
            Some(i) => {
                lemma_lines_absent(s, p, i + 1);
                lemma_sub_absent(s, p, k, i);
                let line = s.subrange(k, i);
                if line.len() > 0 && line.last() == '\r' {
                    lemma_sub_absent(line, p, 0, line.len() - 1);
                    assert(line.subrange(0, line.len() - 1) =~= line.drop_last());
                }
                let rest = split_lines_from(s, i + 1);
                assert forall|j: int|
                    0 <= j < split_lines_from(s, k).len() implies absent(
                    #[trigger] split_lines_from(s, k)[j],
                    p,
                ) by {
                    if j > 0 {
                        assert(split_lines_from(s, k)[j] == rest[j - 1]);
                    }
                }
            },
        }
    }
}

/// Joining lines with newlines forms no new occurrence of a pattern that
/// holds no newline.
proof fn lemma_join_absent(ls: Seq<Seq<char>>, p: Seq<char>)
    requires
        forall|i: int| 0 <= i < ls.len() ==> absent(#[trigger] ls[i], p),
        forall|j: int| 0 <= j < p.len() ==> p[j] != '\n',
        p.len() > 0,
    ensures
        absent(join_lines(ls), p),
    decreases ls.len(),
{
    if ls.len() == 0 {
        assert forall|k: int| !#[trigger] matches_at(join_lines(ls), p, k) by {
            assert(join_lines(ls).len() == 0);
        }
    } else if ls.len() == 1 {
        assert(absent(ls[0], p));
    } else {
        let front = ls.drop_last();
        assert forall|i: int| 0 <= i < front.len() implies absent(#[trigger] front[i], p) by {
            assert(front[i] == ls[i]);
        }
        lemma_join_absent(front, p);
        let a = join_lines(front);
        let b = ls.last();
        assert(absent(b, p));
        let j = a + seq!['\n'] + b;
        assert(join_lines(ls) == j);
        assert forall|k: int| !#[trigger] matches_at(j, p, k) by {
            if matches_at(j, p, k) {
                if k + p.len() <= a.len() {
                    assert(j.subrange(k, k + p.len()) =~= a.subrange(k, k + p.len()));
                    assert(matches_at(a, p, k));
                } else if k > a.len() {
                    let k2 = k - a.len() - 1;
                    assert(j.subrange(k, k + p.len()) =~= b.subrange(k2, k2 + p.len()));
                    assert(matches_at(b, p, k2));
                } else {
                    let d = a.len() - k;
                    assert(j.subrange(k, k + p.len())[d] == j[a.len() as int]);
                    assert(p[d] != '\n');
                }
            }
        }
    }
}

/// No input tag comes out of cleaning unless removing the lone tags
/// formed one: the label surgery, the joining of lines and the trimming
/// never form a tag. (Removing a lone tag can form one, as
/// `[INPUT_[/INPUT_TEXT]TEXT]` shows, in which case it is kept.)
pub proof fn law_clean_leaves_no_tags(text: Seq<char>)
    requires
        absent(strip_lone_tags(strip_blocks(text)), open_tag()),
        absent(strip_lone_tags(strip_blocks(text)), close_tag()),
    ensures
        absent(clean_spec(text), open_tag()),
        absent(clean_spec(text), close_tag()),
{
    reveal_strlit("[INPUT_TEXT]");
    reveal_strlit("[/INPUT_TEXT]");
    let r = strip_lone_tags(strip_blocks(text));
    let ls = split_lines(r);
    lemma_trim_absent(r, open_tag());
    lemma_trim_absent(r, close_tag());
    if let Some(idx) = first_content_from(ls, 0) {
        lemma_first_content_in_range(ls, 0);
        if let Some(k) = first_label_from(trim_start(ls[idx]), 0) {
            let nl = trim_start(strip_repeated(trim_start(ls[idx]), label_prefix(k)));
            let ls2 = ls.update(idx, nl);
            lemma_lines_absent(r, open_tag(), 0);
            lemma_lines_absent(r, close_tag(), 0);
            assert(absent(ls[idx], open_tag()));
            assert(absent(ls[idx], close_tag()));
            lemma_trim_absent(ls[idx], open_tag());
            lemma_trim_absent(ls[idx], close_tag());
            lemma_strip_repeated_absent(trim_start(ls[idx]), label_prefix(k), open_tag());
            lemma_strip_repeated_absent(trim_start(ls[idx]), label_prefix(k), close_tag());
            lemma_trim_absent(strip_repeated(trim_start(ls[idx]), label_prefix(k)), open_tag());
            lemma_trim_absent(strip_repeated(trim_start(ls[idx]), label_prefix(k)), close_tag());
            assert forall|i: int| 0 <= i < ls2.len() implies absent(#[trigger] ls2[i], open_tag())
                && absent(ls2[i], close_tag()) by {
                if i != idx {
                    assert(ls2[i] == ls[i]);
                }
            }
            lemma_join_absent(ls2, open_tag());
            lemma_join_absent(ls2, close_tag());
            lemma_trim_absent(join_lines(ls2), open_tag());
            lemma_trim_absent(join_lines(ls2), close_tag());
        }
    }
}

/// A first content line found from `i` on lies in range.
proof fn lemma_first_content_in_range(ls: Seq<Seq<char>>, i: int)
    ensures
        first_content_from(ls, i) matches Some(k) ==> 0 <= i <= k < ls.len(),
    decreases ls.len() - i,
{
    if 0 <= i < ls.len() && trim(ls[i]).len() == 0 {
        lemma_first_content_in_range(ls, i + 1);
    }
}

/// Each label begins with no white space and holds no `[` and no newline.
proof fn lemma_label_chars(k: int)
    requires
        0 <= k < label_count(),
    ensures
        label_prefix(k).len() > 0,
        !is_ws(label_prefix(k)[0]),
        forall|i: int| 0 <= i < label_prefix(k).len() ==> label_prefix(k)[i] != '[' && label_prefix(k)[i] != '\n',
{
    reveal_strlit("Output:");
    reveal_strlit("output:");
    reveal_strlit("OUTPUT:");
    reveal_strlit("Result:");
    reveal_strlit("result:");
    reveal_strlit("Input:");
    reveal_strlit("input:");
    reveal_strlit("润色结果：");
    reveal_strlit("润色结果:");
    reveal_strlit("润色：");
    reveal_strlit("润色:");
    reveal_strlit("答：");
    reveal_strlit("答:");
    reveal_strlit("A:");
    reveal_strlit("A：");
    if k == 0 {
        assert forall|i: int| 0 <= i < label_prefix(k).len() implies label_prefix(k)[i] != '[' && label_prefix(k)[i] != '\n' by {
            if i == 0 {} else if i == 1 {} else if i == 2 {} else if i == 3 {} else if i == 4 {} else if i == 5 {} else if i == 6 {}
        }
    }
    else if k == 1 {
        assert forall|i: int| 0 <= i < label_prefix(k).len() implies label_prefix(k)[i] != '[' && label_prefix(k)[i] != '\n' by {
            if i == 0 {} else if i == 1 {} else if i == 2 {} else if i == 3 {} else if i == 4 {} else if i == 5 {} else if i == 6 {}
        }
    }
    else if k == 2 {
        assert forall|i: int| 0 <= i < label_prefix(k).len() implies label_prefix(k)[i] != '[' && label_prefix(k)[i] != '\n' by {
            if i == 0 {} else if i == 1 {} else if i == 2 {} else if i == 3 {} else if i == 4 {} else if i == 5 {} else if i == 6 {}
        }
    }
    else if k == 3 {
        assert forall|i: int| 0 <= i < label_prefix(k).len() implies label_prefix(k)[i] != '[' && label_prefix(k)[i] != '\n' by {
            if i == 0 {} else if i == 1 {} else if i == 2 {} else if i == 3 {} else if i == 4 {} else if i == 5 {} else if i == 6 {}
        }
    }
    else if k == 4 {
        assert forall|i: int| 0 <= i < label_prefix(k).len() implies label_prefix(k)[i] != '[' && label_prefix(k)[i] != '\n' by {
            if i == 0 {} else if i == 1 {} else if i == 2 {} else if i == 3 {} else if i == 4 {} else if i == 5 {} else if i == 6 {}
        }
    }
    else if k == 5 {
        assert forall|i: int| 0 <= i < label_prefix(k).len() implies label_prefix(k)[i] != '[' && label_prefix(k)[i] != '\n' by {
            if i == 0 {} else if i == 1 {} else if i == 2 {} else if i == 3 {} else if i == 4 {} else if i == 5 {}
        }
    }
    else if k == 6 {
        assert forall|i: int| 0 <= i < label_prefix(k).len() implies label_prefix(k)[i] != '[' && label_prefix(k)[i] != '\n' by {
            if i == 0 {} else if i == 1 {} else if i == 2 {} else if i == 3 {} else if i == 4 {} else if i == 5 {}
        }
    }
    else if k == 7 {
        assert forall|i: int| 0 <= i < label_prefix(k).len() implies label_prefix(k)[i] != '[' && label_prefix(k)[i] != '\n' by {
            if i == 0 {} else if i == 1 {} else if i == 2 {} else if i == 3 {} else if i == 4 {}
        }
    }
    else if k == 8 {
        assert forall|i: int| 0 <= i < label_prefix(k).len() implies label_prefix(k)[i] != '[' && label_prefix(k)[i] != '\n' by {
            if i == 0 {} else if i == 1 {} else if i == 2 {} else if i == 3 {} else if i == 4 {}
        }
    }
    else if k == 9 {
        assert forall|i: int| 0 <= i < label_prefix(k).len() implies label_prefix(k)[i] != '[' && label_prefix(k)[i] != '\n' by {
            if i == 0 {} else if i == 1 {} else if i == 2 {}
        }
    }
    else if k == 10 {
        assert forall|i: int| 0 <= i < label_prefix(k).len() implies label_prefix(k)[i] != '[' && label_prefix(k)[i] != '\n' by {
            if i == 0 {} else if i == 1 {} else if i == 2 {}
        }
    }
    else if k == 11 {
        assert forall|i: int| 0 <= i < label_prefix(k).len() implies label_prefix(k)[i] != '[' && label_prefix(k)[i] != '\n' by {
            if i == 0 {} else if i == 1 {}
        }
    }
    else if k == 12 {
        assert forall|i: int| 0 <= i < label_prefix(k).len() implies label_prefix(k)[i] != '[' && label_prefix(k)[i] != '\n' by {
            if i == 0 {} else if i == 1 {}
        }
    }
    else if k == 13 {
        assert forall|i: int| 0 <= i < label_prefix(k).len() implies label_prefix(k)[i] != '[' && label_prefix(k)[i] != '\n' by {
            if i == 0 {} else if i == 1 {}
        }
    }
    else if k == 14 {
        assert forall|i: int| 0 <= i < label_prefix(k).len() implies label_prefix(k)[i] != '[' && label_prefix(k)[i] != '\n' by {
            if i == 0 {} else if i == 1 {}
        }
    }
    else {}
}

/// A text does not begin with label `j` when it differs from it at `d`.
proof fn lemma_not_label(s: Seq<char>, j: int, d: int)
    requires
        0 <= d < label_prefix(j).len(),
        d < s.len(),
        s[d] != label_prefix(j)[d],
    ensures
        !starts_with(s, label_prefix(j)),
{
    if starts_with(s, label_prefix(j)) {
        assert(s.subrange(0, label_prefix(j).len() as int)[d] == s[d]);
    }
}

/// A text that begins with label `k` is found to begin with label `k`:
/// no earlier label is a prefix of it.
proof fn lemma_label_first(k: int, x: Seq<char>)
    requires
        0 <= k < label_count(),
    ensures
        first_label_from(label_prefix(k) + x, 0) == Some(k),
{
    reveal_strlit("Output:");
    reveal_strlit("output:");
    reveal_strlit("OUTPUT:");
    reveal_strlit("Result:");
    reveal_strlit("result:");
    reveal_strlit("Input:");
    reveal_strlit("input:");
    reveal_strlit("润色结果：");
    reveal_strlit("润色结果:");
    reveal_strlit("润色：");
    reveal_strlit("润色:");
    reveal_strlit("答：");
    reveal_strlit("答:");
    reveal_strlit("A:");
    reveal_strlit("A：");
    reveal_with_fuel(first_label_from, 16);
    let s = label_prefix(k) + x;
    assert(s.subrange(0, label_prefix(k).len() as int) =~= label_prefix(k));
    if k == 0 {
    }
    else if k == 1 {
        lemma_not_label(s, 0, 0);
    }
    else if k == 2 {
        lemma_not_label(s, 0, 1);
        lemma_not_label(s, 1, 0);
    }
    else if k == 3 {
        lemma_not_label(s, 0, 0);
        lemma_not_label(s, 1, 0);
        lemma_not_label(s, 2, 0);
    }
    else if k == 4 {
        lemma_not_label(s, 0, 0);
        lemma_not_label(s, 1, 0);
        lemma_not_label(s, 2, 0);
        lemma_not_label(s, 3, 0);
    }
    else if k == 5 {
        lemma_not_label(s, 0, 0);
        lemma_not_label(s, 1, 0);
        lemma_not_label(s, 2, 0);
        lemma_not_label(s, 3, 0);
        lemma_not_label(s, 4, 0);
    }
    else if k == 6 {
        lemma_not_label(s, 0, 0);
        lemma_not_label(s, 1, 0);
        lemma_not_label(s, 2, 0);
        lemma_not_label(s, 3, 0);
        lemma_not_label(s, 4, 0);
        lemma_not_label(s, 5, 0);
    }
    else if k == 7 {
        lemma_not_label(s, 0, 0);
        lemma_not_label(s, 1, 0);
        lemma_not_label(s, 2, 0);
        lemma_not_label(s, 3, 0);
        lemma_not_label(s, 4, 0);
        lemma_not_label(s, 5, 0);
        lemma_not_label(s, 6, 0);
    }
    else if k == 8 {
        lemma_not_label(s, 0, 0);
        lemma_not_label(s, 1, 0);
        lemma_not_label(s, 2, 0);
        lemma_not_label(s, 3, 0);
        lemma_not_label(s, 4, 0);
        lemma_not_label(s, 5, 0);
        lemma_not_label(s, 6, 0);
        lemma_not_label(s, 7, 4);
    }
    else if k == 9 {
        lemma_not_label(s, 0, 0);
        lemma_not_label(s, 1, 0);
        lemma_not_label(s, 2, 0);
        lemma_not_label(s, 3, 0);
        lemma_not_label(s, 4, 0);
        lemma_not_label(s, 5, 0);
        lemma_not_label(s, 6, 0);
        lemma_not_label(s, 7, 2);
        lemma_not_label(s, 8, 2);
    }
    else if k == 10 {
        lemma_not_label(s, 0, 0);
        lemma_not_label(s, 1, 0);
        lemma_not_label(s, 2, 0);
        lemma_not_label(s, 3, 0);
        lemma_not_label(s, 4, 0);
        lemma_not_label(s, 5, 0);
        lemma_not_label(s, 6, 0);
        lemma_not_label(s, 7, 2);
        lemma_not_label(s, 8, 2);
        lemma_not_label(s, 9, 2);
    }
    else if k == 11 {
        lemma_not_label(s, 0, 0);
        lemma_not_label(s, 1, 0);
        lemma_not_label(s, 2, 0);
        lemma_not_label(s, 3, 0);
        lemma_not_label(s, 4, 0);
        lemma_not_label(s, 5, 0);
        lemma_not_label(s, 6, 0);
        lemma_not_label(s, 7, 0);
        lemma_not_label(s, 8, 0);
        lemma_not_label(s, 9, 0);
        lemma_not_label(s, 10, 0);
    }
    else if k == 12 {
        lemma_not_label(s, 0, 0);
        lemma_not_label(s, 1, 0);
        lemma_not_label(s, 2, 0);
        lemma_not_label(s, 3, 0);
        lemma_not_label(s, 4, 0);
        lemma_not_label(s, 5, 0);
        lemma_not_label(s, 6, 0);
        lemma_not_label(s, 7, 0);
        lemma_not_label(s, 8, 0);
        lemma_not_label(s, 9, 0);
        lemma_not_label(s, 10, 0);
        lemma_not_label(s, 11, 1);
    }
    else if k == 13 {
        lemma_not_label(s, 0, 0);
        lemma_not_label(s, 1, 0);
        lemma_not_label(s, 2, 0);
        lemma_not_label(s, 3, 0);
        lemma_not_label(s, 4, 0);
        lemma_not_label(s, 5, 0);
        lemma_not_label(s, 6, 0);
        lemma_not_label(s, 7, 0);
        lemma_not_label(s, 8, 0);
        lemma_not_label(s, 9, 0);
        lemma_not_label(s, 10, 0);
        lemma_not_label(s, 11, 0);
        lemma_not_label(s, 12, 0);
    }
    else if k == 14 {
        lemma_not_label(s, 0, 0);
        lemma_not_label(s, 1, 0);
        lemma_not_label(s, 2, 0);
        lemma_not_label(s, 3, 0);
        lemma_not_label(s, 4, 0);
        lemma_not_label(s, 5, 0);
        lemma_not_label(s, 6, 0);
        lemma_not_label(s, 7, 0);
        lemma_not_label(s, 8, 0);
        lemma_not_label(s, 9, 0);
        lemma_not_label(s, 10, 0);
        lemma_not_label(s, 11, 0);
        lemma_not_label(s, 12, 0);
        lemma_not_label(s, 13, 1);
    }
    else {}
}

/// A label followed by a one-line text without input tags holds no input
/// tag and no newline.
proof fn lemma_label_text_clear(k: int, x: Seq<char>)
    requires
        0 <= k < label_count(),
        absent(x, open_tag()),
        absent(x, close_tag()),
        forall|i: int| 0 <= i < x.len() ==> x[i] != '\n',
    ensures
        find(label_prefix(k) + x, open_tag()) is None,
        find(label_prefix(k) + x, close_tag()) is None,
        find_from(label_prefix(k) + x, seq!['\n'], 0) is None,
{
    reveal_strlit("[INPUT_TEXT]");
    reveal_strlit("[/INPUT_TEXT]");
    let l = label_prefix(k);
    let s = l + x;
    lemma_label_chars(k);
    assert forall|j: int| !#[trigger] matches_at(s, open_tag(), j) by {
        if matches_at(s, open_tag(), j) {
            assert(s.subrange(j, j + open_tag().len())[0] == s[j]);
            if j >= l.len() {
                assert(s.subrange(j, j + open_tag().len()) =~= x.subrange(
                    j - l.len(),
                    j - l.len() + open_tag().len(),
                ));
                assert(matches_at(x, open_tag(), j - l.len()));
            }
        }
    }
    assert forall|j: int| !#[trigger] matches_at(s, close_tag(), j) by {
        if matches_at(s, close_tag(), j) {
            assert(s.subrange(j, j + close_tag().len())[0] == s[j]);
            if j >= l.len() {
                assert(s.subrange(j, j + close_tag().len()) =~= x.subrange(
                    j - l.len(),
                    j - l.len() + close_tag().len(),
                ));
                assert(matches_at(x, close_tag(), j - l.len()));
            }
        }
    }
    lemma_find_from(s, open_tag(), 0);
    lemma_find_from(s, close_tag(), 0);
    lemma_find_from(s, seq!['\n'], 0);
    if let Some(i) = find_from(s, seq!['\n'], 0) {
        assert(s.subrange(i, i + 1)[0] == s[i]);
    }
}

/// A one-line text behind a label comes out without the label.
#[verifier::rlimit(30)]
proof fn lemma_clean_label(k: int, x: Seq<char>)
    requires
        0 <= k < label_count(),
        absent(x, open_tag()),
        absent(x, close_tag()),
        forall|i: int| 0 <= i < x.len() ==> x[i] != '\n',
        !starts_with(x, label_prefix(k)),
    ensures
        clean_spec(label_prefix(k) + x) == trim(x),
{
    reveal_strlit("[INPUT_TEXT]");
    reveal_strlit("[/INPUT_TEXT]");
    let l = label_prefix(k);
    let s = l + x;
    lemma_label_chars(k);
    lemma_label_text_clear(k, x);
    assert(strip_blocks(s) == s);
    lemma_remove_absent(s, open_tag());
    lemma_remove_absent(s, close_tag());
    assert(strip_lone_tags(s) == s);
    let ls = split_lines(s);
    assert(s.subrange(0, s.len() as int) =~= s);
    assert(ls == seq![s]);
    assert(trim_start(s) == s);
    lemma_trim_end_shape(s);
    assert(trim(s).len() > 0);
    assert(first_content_from(ls, 0) == Some(0int));
    lemma_label_first(k, x);
    assert(s.subrange(0, l.len() as int) =~= l);
    assert(s.skip(l.len() as int) =~= x);
    assert(starts_with(s, l));
    assert(strip_repeated(x, l) == x);
    assert(strip_repeated(s, l) == strip_repeated(s.skip(l.len() as int), l));
    assert(strip_repeated(s, l) == x);
    lemma_trim_start_shape(x);
    let nl = trim_start(x);
    assert(trim_start(nl) == nl);
    assert(ls.update(0, nl) =~= seq![nl]);
}

/// Every documented label at the start of a reply is removed: a one-line
/// text with no input tag, behind any one label, comes out as the text
/// alone, trimmed.
#[verifier::rlimit(60)]
pub proof fn law_documented_labels_removed(x: Seq<char>)
    requires
        absent(x, open_tag()),
        absent(x, close_tag()),
        forall|i: int| 0 <= i < x.len() ==> x[i] != '\n',
        forall|k: int| 0 <= k < label_count() ==> !starts_with(x, #[trigger] label_prefix(k)),
    ensures
        clean_spec("Output:"@ + x) == trim(x),
        clean_spec("output:"@ + x) == trim(x),
        clean_spec("OUTPUT:"@ + x) == trim(x),
        clean_spec("Result:"@ + x) == trim(x),
        clean_spec("result:"@ + x) == trim(x),
        clean_spec("Input:"@ + x) == trim(x),
        clean_spec("input:"@ + x) == trim(x),
        clean_spec("润色结果："@ + x) == trim(x),
        clean_spec("润色结果:"@ + x) == trim(x),
        clean_spec("润色："@ + x) == trim(x),
        clean_spec("润色:"@ + x) == trim(x),
        clean_spec("答："@ + x) == trim(x),
        clean_spec("答:"@ + x) == trim(x),
        clean_spec("A:"@ + x) == trim(x),
        clean_spec("A："@ + x) == trim(x),
{
    assert(clean_spec("Output:"@ + x) == trim(x)) by {
        assert(label_prefix(0) == "Output:"@);
        lemma_clean_label(0, x);
    }
    assert(clean_spec("output:"@ + x) == trim(x)) by {
        assert(label_prefix(1) == "output:"@);
        lemma_clean_label(1, x);
    }
    assert(clean_spec("OUTPUT:"@ + x) == trim(x)) by {
        assert(label_prefix(2) == "OUTPUT:"@);
        lemma_clean_label(2, x);
    }
    assert(clean_spec("Result:"@ + x) == trim(x)) by {
        assert(label_prefix(3) == "Result:"@);
        lemma_clean_label(3, x);
    }
    assert(clean_spec("result:"@ + x) == trim(x)) by {
        assert(label_prefix(4) == "result:"@);
        lemma_clean_label(4, x);
    }
    assert(clean_spec("Input:"@ + x) == trim(x)) by {
        assert(label_prefix(5) == "Input:"@);
        lemma_clean_label(5, x);
    }
    assert(clean_spec("input:"@ + x) == trim(x)) by {
        assert(label_prefix(6) == "input:"@);
        lemma_clean_label(6, x);
    }
    assert(clean_spec("润色结果："@ + x) == trim(x)) by {
        assert(label_prefix(7) == "润色结果："@);
        lemma_clean_label(7, x);
    }
    assert(clean_spec("润色结果:"@ + x) == trim(x)) by {
        assert(label_prefix(8) == "润色结果:"@);
        lemma_clean_label(8, x);
    }
    assert(clean_spec("润色："@ + x) == trim(x)) by {
        assert(label_prefix(9) == "润色："@);
        lemma_clean_label(9, x);
    }
    assert(clean_spec("润色:"@ + x) == trim(x)) by {
        assert(label_prefix(10) == "润色:"@);
        lemma_clean_label(10, x);
    }
    assert(clean_spec("答："@ + x) == trim(x)) by {
        assert(label_prefix(11) == "答："@);
        lemma_clean_label(11, x);
    }
    assert(clean_spec("答:"@ + x) == trim(x)) by {
        assert(label_prefix(12) == "答:"@);
        lemma_clean_label(12, x);
    }
    assert(clean_spec("A:"@ + x) == trim(x)) by {
        assert(label_prefix(13) == "A:"@);
        lemma_clean_label(13, x);
    }
    assert(clean_spec("A："@ + x) == trim(x)) by {
        assert(label_prefix(14) == "A："@);
        lemma_clean_label(14, x);
    }
}

} // verus!
