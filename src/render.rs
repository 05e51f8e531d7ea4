use vstd::prelude::*;

use vstd::string::StringExecFns;

use crate::render_laws::{lemma_render_width, no_fences, within_width};
use crate::text::{
    is_space, is_space_char, lines_of, push_char, split_lines, string_of, string_views, strings_of,
    to_chars, views, words, words_of,
};

verus! {

/// Whether `l` is a fence delimiter: after its leading white space come three
/// backticks.
pub open spec fn is_fence(l: Seq<char>) -> bool {
    exists|i: int| #[trigger] fence_at(l, i)
}

/// Whether white space alone comes before position `i` of `l`, and three
/// backticks start there.
pub open spec fn fence_at(l: Seq<char>, i: int) -> bool {
    &&& 0 <= i && i + 3 <= l.len()
    &&& forall|j: int| 0 <= j < i ==> is_space(#[trigger] l[j])
    &&& l[i] == '`' && l[i + 1] == '`' && l[i + 2] == '`'
}

/// Greedy filling of words into lines of at most `n` characters: a word goes
/// on the current line, after one space, when the line stays within `n`;
/// otherwise it starts a new line. A word longer than `n` stands alone.
pub open spec fn fill(ws: Seq<Seq<char>>, n: nat) -> Seq<Seq<char>>
    decreases ws.len(),
{
    if ws.len() == 0 {
        Seq::empty()
    } else {
        let prev = fill(ws.drop_last(), n);
        let w = ws.last();
        if prev.len() > 0 && prev.last().len() + 1 + w.len() <= n {
            prev.update(prev.len() - 1, prev.last() + seq![' '] + w)
        } else {
            prev.push(w)
        }
    }
}

/// The output lines of one line of plain text: filled to `width`, or the line
/// itself where there is no width. A line without words gives one empty line.
pub open spec fn wrap_line(l: Seq<char>, width: Option<usize>) -> Seq<Seq<char>> {
    match width {
        None => seq![l],
        Some(n) => {
            let f = fill(words(l), n as nat);
            if f.len() == 0 {
                seq![Seq::empty()]
            } else {
                f
            }
        },
    }
}

/// The number of fence delimiters among `ls`.
pub open spec fn fence_count(ls: Seq<Seq<char>>) -> nat
    decreases ls.len(),
{
    if ls.len() == 0 {
        0
    } else {
        fence_count(ls.drop_last()) + if is_fence(ls.last()) {
            1nat
        } else {
            0nat
        }
    }
}

/// Whether a code fence is open after the lines `ls`.
pub open spec fn in_fence(ls: Seq<Seq<char>>) -> bool {
    fence_count(ls) % 2 == 1
}

/// The output lines of line `l`: itself when it is a delimiter or stands in an
/// open fence, else its wrapped form.
pub open spec fn line_out(l: Seq<char>, open: bool, width: Option<usize>) -> Seq<Seq<char>> {
    if open || is_fence(l) {
        seq![l]
    } else {
        wrap_line(l, width)
    }
}

/// The output lines of the input lines `ls`.
pub open spec fn render_lines(ls: Seq<Seq<char>>, width: Option<usize>) -> Seq<Seq<char>>
    decreases ls.len(),
{
    if ls.len() == 0 {
        Seq::empty()
    } else {
        render_lines(ls.drop_last(), width) + line_out(
            ls.last(),
            in_fence(ls.drop_last()),
            width,
        )
    }
}

/// The output lines of text `t`.
pub open spec fn render_text(t: Seq<char>, width: Option<usize>) -> Seq<Seq<char>> {
    render_lines(lines_of(t), width)
}

/// Lines joined by newline characters.
pub open spec fn join_lines(ls: Seq<Seq<char>>) -> Seq<char>
    decreases ls.len(),
{
    if ls.len() == 0 {
        Seq::empty()
    } else if ls.len() == 1 {
        ls[0]
    } else {
        join_lines(ls.drop_last()) + seq!['\n'] + ls.last()
    }
}

/// Whether `l` is a fence delimiter.
pub fn fence_line(l: &Vec<char>) -> (r: bool)
    ensures
        r == is_fence(l@),
{
    let mut i: usize = 0;
    while i < l.len() && is_space_char(l[i])
        invariant
            i <= l.len(),
            forall|j: int| 0 <= j < i ==> is_space(#[trigger] l@[j]),
        decreases l.len() - i,
    {
        i = i + 1;
    }
    let r = l.len() - i >= 3 && l[i] == '`' && l[i + 1] == '`' && l[i + 2] == '`';
    if r {
        assert(fence_at(l@, i as int));
    } else {
        assert forall|k: int| !fence_at(l@, k) by {
            if fence_at(l@, k) {
                if k < i {
                    assert(is_space(l@[k]));
                } else if k > i {
                    assert(is_space(l@[i as int]));
                }
            }
        }
    }
    r
}

/// `dst` followed by the characters of `src`.
fn extend_chars(dst: &mut Vec<char>, src: &Vec<char>)
    ensures
        final(dst)@ == old(dst)@ + src@,
{
    for i in 0..src.len()
        invariant
            dst@ == old(dst)@ + src@.take(i as int),
    {
        dst.push(src[i]);
        assert(src@.take(i + 1) == src@.take(i as int).push(src@[i as int]));
    }
    assert(src@.take(src.len() as int) == src@);
}

/// The words `ws` filled into lines of at most `n` characters.
pub fn fill_words(ws: &Vec<Vec<char>>, n: usize) -> (r: Vec<Vec<char>>)
    ensures
        views(r@) == fill(views(ws@), n as nat),
{
    let mut done: Vec<Vec<char>> = Vec::new();
    let mut cur: Vec<char> = Vec::new();
    let mut started = false;
    for i in 0..ws.len()
        invariant
            started == (i > 0),
            started ==> views(done@).push(cur@) == fill(views(ws@).take(i as int), n as nat),
            !started ==> done@.len() == 0,
    {
        let w = &ws[i];
        let ghost prev = fill(views(ws@).take(i as int), n as nat);
        assert(views(ws@).take(i + 1).drop_last() == views(ws@).take(i as int));
        assert(views(ws@).take(i + 1).last() == w@);
        if started && w.len() < n && cur.len() < n - w.len() {
            let ghost old_cur = cur@;
            assert(prev.last() == old_cur);
            cur.push(' ');
            extend_chars(&mut cur, w);
            assert(cur@ =~= old_cur + seq![' '] + w@);
            assert(views(done@).push(cur@) =~= prev.update(prev.len() - 1, prev.last() + seq![' '] + w@));
        } else {
            let ghost before = views(done@);
            if started {
                done.push(cur);
                assert(views(done@) =~= before.push(prev.last()));
            }
            cur = Vec::new();
            extend_chars(&mut cur, w);
            assert(views(done@).push(cur@) =~= prev.push(w@));
        }
        started = true;
    }
    assert(views(ws@).take(ws.len() as int) == views(ws@));
    if started {
        let ghost before = views(done@);
        done.push(cur);
        assert(views(done@) =~= before.push(cur@));
    }
    done
}

/// The output lines of one line of plain text.
fn wrap_chars(l: &Vec<char>, width: Option<usize>) -> (r: Vec<Vec<char>>)
    ensures
        views(r@) == wrap_line(l@, width),
{
    match width {
        None => {
            let mut c: Vec<char> = Vec::new();
            extend_chars(&mut c, l);
            let mut r: Vec<Vec<char>> = Vec::new();
            r.push(c);
            assert(views(r@) =~= seq![l@]);
            r
        },
        Some(n) => {
            let ws = words_of(l);
            let f = fill_words(&ws, n);
            if f.len() == 0 {
                let mut r: Vec<Vec<char>> = Vec::new();
                r.push(Vec::new());
                assert(views(r@) =~= seq![Seq::<char>::empty()]);
                r
            } else {
                f
            }
        },
    }
}

/// The lines of `text` for a terminal: fenced code blocks, with their
/// delimiters, come out as they are; every other line is filled to `width`
/// characters, or left as it is where there is no width.
pub fn render(text: &str, width: Option<usize>) -> (r: Vec<String>)
    ensures
        string_views(r@) == render_text(text@, width),
        width is Some && no_fences(lines_of(text@)) ==> within_width(
            string_views(r@),
            width->Some_0 as nat,
        ),
{
    let cs = to_chars(text);
    let ls = split_lines(&cs);
    let mut out: Vec<String> = Vec::new();
    let mut open = false;
    for i in 0..ls.len()
        invariant
            open == in_fence(views(ls@).take(i as int)),
            string_views(out@) == render_lines(views(ls@).take(i as int), width),
    {
        let l = &ls[i];
        let ghost before = string_views(out@);
        assert(views(ls@).take(i + 1).drop_last() == views(ls@).take(i as int));
        assert(views(ls@).take(i + 1).last() == l@);
        let delim = fence_line(l);
        if open || delim {
            out.push(string_of(l));
            assert(string_views(out@) =~= before + seq![l@]);
        } else {
            let wrapped = wrap_chars(l, width);
            let mut strs = strings_of(&wrapped);
            let ghost added = strs@;
            out.append(&mut strs);
            assert(string_views(out@) =~= before + string_views(added));
        }
        if delim {
            open = !open;
        }
    }
    assert(views(ls@).take(ls.len() as int) == views(ls@));
    proof {
        if width is Some && no_fences(lines_of(text@)) {
            lemma_render_width(text@, width->Some_0);
        }
    }
    out
}

/// The lines `ls` joined by newline characters.
pub fn join_strings(ls: &Vec<String>) -> (r: String)
    ensures
        r@ == join_lines(string_views(ls@)),
{
    let mut r = String::new();
    for i in 0..ls.len()
        invariant
            r@ == join_lines(string_views(ls@).take(i as int)),
    {
        let ghost t = string_views(ls@).take(i + 1);
        assert(t.drop_last() == string_views(ls@).take(i as int));
        if i > 0 {
            push_char(&mut r, '\n');
        }
        r.append(ls[i].as_str());
        assert(r@ =~= join_lines(t));
    }
    assert(string_views(ls@).take(ls.len() as int) == string_views(ls@));
    r
}

} // verus!
