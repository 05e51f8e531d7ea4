use vstd::prelude::*;

use crate::render::{
    fence_count, fill, in_fence, is_fence, join_lines, line_out, render_lines, render_text, wrap_line,
};
use crate::text::{
    is_space, lemma_pieces_nonempty, lines_of, pieces, scan_from, scan_step, strip_cr, words,
    WordScan,
};

verus! {

/// Whether `s` is one word: not empty, and without white space.
pub open spec fn is_word(s: Seq<char>) -> bool {
    s.len() > 0 && forall|j: int| 0 <= j < s.len() ==> !is_space(#[trigger] s[j])
}

/// Whether every element of `ws` is one word.
pub open spec fn all_words(ws: Seq<Seq<char>>) -> bool {
    forall|i: int| 0 <= i < ws.len() ==> is_word(#[trigger] ws[i])
}

/// Whether `s` holds no newline character.
pub open spec fn no_newline(s: Seq<char>) -> bool {
    forall|j: int| 0 <= j < s.len() ==> #[trigger] s[j] != '\n'
}

/// Scanning two texts one after the other is scanning them joined.
pub proof fn lemma_scan_concat(st: WordScan, a: Seq<char>, b: Seq<char>)
    ensures
        scan_from(st, a + b) == scan_from(scan_from(st, a), b),
    decreases b.len(),
{
    if b.len() == 0 {
        assert(a + b == a);
    } else {
        lemma_scan_concat(st, a, b.drop_last());
        assert((a + b).drop_last() == a + b.drop_last());
        assert((a + b).last() == b.last());
    }
}

/// Reading a word adds it to the word being read.
pub proof fn lemma_scan_word(st: WordScan, w: Seq<char>)
    requires
        forall|j: int| 0 <= j < w.len() ==> !is_space(#[trigger] w[j]),
    ensures
        scan_from(st, w) == (st.0, st.1 + w),
    decreases w.len(),
{
    if w.len() == 0 {
        assert(st.1 + w == st.1);
    } else {
        lemma_scan_word(st, w.drop_last());
        assert(!is_space(w[w.len() - 1]));
        assert(st.1 + w.drop_last() + seq![w.last()] == st.1 + w);
        assert((st.1 + w.drop_last()).push(w.last()) == st.1 + w.drop_last() + seq![w.last()]);
    }
}

/// The scan keeps whole words only.
pub proof fn lemma_scan_shape(s: Seq<char>)
    ensures
        all_words(scan_from((Seq::empty(), Seq::empty()), s).0),
        forall|j: int|
            0 <= j < scan_from((Seq::empty(), Seq::empty()), s).1.len() ==> !is_space(
                #[trigger] scan_from((Seq::empty(), Seq::empty()), s).1[j],
            ),
    decreases s.len(),
{
    if s.len() > 0 {
        lemma_scan_shape(s.drop_last());
        let st = scan_from((Seq::empty(), Seq::empty()), s.drop_last());
        let c = s.last();
        if is_space(c) {
            if st.1.len() > 0 {
                assert(forall|i: int| 0 <= i < st.0.len() ==> st.0.push(st.1)[i] == st.0[i]);
                assert(st.0.push(st.1)[st.0.len() as int] == st.1);
            }
        } else {
            assert(forall|j: int| 0 <= j < st.1.len() ==> st.1.push(c)[j] == st.1[j]);
        }
    }
}

/// The words of a text are words.
pub proof fn lemma_words_shape(s: Seq<char>)
    ensures
        all_words(words(s)),
{
    lemma_scan_shape(s);
    let st = scan_from((Seq::empty(), Seq::empty()), s);
    if st.1.len() > 0 {
        assert(forall|i: int| 0 <= i < st.0.len() ==> st.0.push(st.1)[i] == st.0[i]);
        assert(st.0.push(st.1)[st.0.len() as int] == st.1);
    }
}

/// A word's only word is itself.
pub proof fn lemma_words_of_word(w: Seq<char>)
    requires
        is_word(w),
    ensures
        words(w) == seq![w],
{
    lemma_scan_word((Seq::empty(), Seq::empty()), w);
    assert(Seq::<char>::empty() + w == w);
    assert(Seq::<Seq<char>>::empty().push(w) == seq![w]);
}

/// A space and a word after text that ends in a word add that word.
pub proof fn lemma_words_extend(o: Seq<char>, w: Seq<char>)
    requires
        o.len() > 0,
        !is_space(o.last()),
        is_word(w),
    ensures
        words(o + seq![' '] + w) == words(o).push(w),
{
    let init: WordScan = (Seq::empty(), Seq::empty());
    let st = scan_from(init, o);
    assert(o.drop_last() + seq![o.last()] == o);
    assert(st.1.len() > 0);
    lemma_scan_concat(init, o, seq![' ']);
    let st1 = scan_from(init, o + seq![' ']);
    assert(seq![' '].drop_last() =~= Seq::<char>::empty());
    assert(scan_from(st, Seq::<char>::empty()) == st);
    assert(seq![' '].last() == ' ');
    assert(scan_from(st, seq![' ']) == scan_step(st, ' '));
    assert(st1 == (st.0.push(st.1), Seq::<char>::empty()));
    lemma_scan_concat(init, o + seq![' '], w);
    lemma_scan_word(st1, w);
    assert(Seq::<char>::empty() + w == w);
}

/// Whether a line that filling made can be filled again into itself alone.
pub open spec fn refills_to_itself(o: Seq<char>, n: nat) -> bool {
    fill(words(o), n) == seq![o]
}

/// Each line that filling makes is a word or fits in `n`, ends in a word,
/// holds no newline, and fills again into itself.
pub proof fn lemma_fill_shape(ws: Seq<Seq<char>>, n: nat)
    requires
        all_words(ws),
    ensures
        forall|i: int|
            0 <= i < fill(ws, n).len() ==> {
                let o = #[trigger] fill(ws, n)[i];
                &&& o.len() > 0
                &&& !is_space(o.last())
                &&& o.len() <= n || is_word(o)
                &&& no_newline(o)
                &&& refills_to_itself(o, n)
            },
    decreases ws.len(),
{
    if ws.len() > 0 {
        let prev = fill(ws.drop_last(), n);
        let w = ws.last();
        assert(all_words(ws.drop_last())) by {
            assert forall|i: int| 0 <= i < ws.drop_last().len() implies is_word(
                #[trigger] ws.drop_last()[i],
            ) by {
                assert(ws.drop_last()[i] == ws[i]);
            }
        }
        lemma_fill_shape(ws.drop_last(), n);
        assert(is_word(w));
        assert(w.last() == w[w.len() - 1]);
        lemma_words_of_word(w);
        assert(seq![w].drop_last() =~= Seq::<Seq<char>>::empty());
        assert(fill(Seq::<Seq<char>>::empty(), n) == Seq::<Seq<char>>::empty());
        assert(seq![w].last() == w);
        assert(fill(seq![w], n) == Seq::<Seq<char>>::empty().push(w));
        if prev.len() > 0 && prev.last().len() + 1 + w.len() <= n {
            let o = prev.last();
            let o2 = o + seq![' '] + w;
            assert(prev[prev.len() - 1] == o);
            assert(o.last() == o[o.len() - 1]);
            lemma_words_extend(o, w);
            assert(words(o2).drop_last() == words(o));
            assert(o2.last() == w.last());
            assert(no_newline(o2)) by {
                assert forall|j: int| 0 <= j < o2.len() implies #[trigger] o2[j] != '\n' by {
                    if j < o.len() {
                        assert(o2[j] == o[j]);
                    } else if j > o.len() {
                        assert(o2[j] == w[j - o.len() - 1]);
                    }
                }
            }
            assert(fill(words(o2), n) =~= seq![o2]);
            let f = fill(ws, n);
            assert forall|i: int| 0 <= i < f.len() implies {
                let x = #[trigger] f[i];
                &&& x.len() > 0
                &&& !is_space(x.last())
                &&& x.len() <= n || is_word(x)
                &&& no_newline(x)
                &&& refills_to_itself(x, n)
            } by {
                if i < prev.len() - 1 {
                    assert(f[i] == prev[i]);
                }
            }
        } else {
            assert(no_newline(w)) by {
                assert forall|j: int| 0 <= j < w.len() implies #[trigger] w[j] != '\n' by {
                    assert(!is_space(w[j]));
                }
            }
            let f = fill(ws, n);
            assert forall|i: int| 0 <= i < f.len() implies {
                let x = #[trigger] f[i];
                &&& x.len() > 0
                &&& !is_space(x.last())
                &&& x.len() <= n || is_word(x)
                &&& no_newline(x)
                &&& refills_to_itself(x, n)
            } by {
                if i < prev.len() {
                    assert(f[i] == prev[i]);
                }
            }
        }
    }
}

/// Whether none of the lines `ls` is a fence delimiter.
pub open spec fn no_fences(ls: Seq<Seq<char>>) -> bool {
    forall|i: int| 0 <= i < ls.len() ==> !is_fence(#[trigger] ls[i])
}

/// Whether each of the lines `out` fits in `n` characters or is one word.
pub open spec fn within_width(out: Seq<Seq<char>>, n: nat) -> bool {
    forall|k: int| 0 <= k < out.len() ==> (#[trigger] out[k]).len() <= n || is_word(out[k])
}

/// The output lines of one line of plain text fit in `n` or are one word.
pub proof fn lemma_wrap_width(l: Seq<char>, n: usize)
    ensures
        within_width(wrap_line(l, Some(n)), n as nat),
{
    lemma_words_shape(l);
    lemma_fill_shape(words(l), n as nat);
}

proof fn lemma_plain_lines_width(ls: Seq<Seq<char>>, n: usize)
    requires
        no_fences(ls),
    ensures
        within_width(render_lines(ls, Some(n)), n as nat),
        fence_count(ls) == 0,
    decreases ls.len(),
{
    if ls.len() > 0 {
        let init = ls.drop_last();
        assert(no_fences(init)) by {
            assert forall|i: int| 0 <= i < init.len() implies !is_fence(#[trigger] init[i]) by {
                assert(init[i] == ls[i]);
            }
        }
        lemma_plain_lines_width(init, n);
        assert(!is_fence(ls[ls.len() - 1]));
        lemma_wrap_width(ls.last(), n);
        let a = render_lines(init, Some(n));
        let b = wrap_line(ls.last(), Some(n));
        assert forall|k: int| 0 <= k < (a + b).len() implies (#[trigger] (a + b)[k]).len() <= n
            || is_word((a + b)[k]) by {
            if k < a.len() {
                assert((a + b)[k] == a[k]);
            } else {
                assert((a + b)[k] == b[k - a.len()]);
            }
        }
    }
}

/// In text without fence delimiters, every rendered line fits in the width,
/// unless it is a single word longer than the width, which then stands alone.
pub proof fn lemma_render_width(t: Seq<char>, n: usize)
    requires
        no_fences(lines_of(t)),
    ensures
        within_width(render_text(t, Some(n)), n as nat),
{
    lemma_plain_lines_width(lines_of(t), n);
}

/// Rendering one more line adds that line's output.
pub proof fn lemma_render_step(ls: Seq<Seq<char>>, j: int, w: Option<usize>)
    requires
        0 <= j < ls.len(),
    ensures
        render_lines(ls.take(j + 1), w) == render_lines(ls.take(j), w) + line_out(
            ls[j],
            in_fence(ls.take(j)),
            w,
        ),
        fence_count(ls.take(j + 1)) == fence_count(ls.take(j)) + if is_fence(ls[j]) {
            1nat
        } else {
            0nat
        },
{
    assert(ls.take(j + 1).drop_last() == ls.take(j));
    assert(ls.take(j + 1).last() == ls[j]);
}

/// Lines that are delimiters or stand in an open fence come out as they are.
pub proof fn lemma_verbatim_run(ls: Seq<Seq<char>>, a: int, b: int, w: Option<usize>)
    requires
        0 <= a <= b <= ls.len(),
        forall|j: int| a <= j < b ==> in_fence(#[trigger] ls.take(j)) || is_fence(ls[j]),
    ensures
        render_lines(ls.take(b), w) == render_lines(ls.take(a), w) + ls.subrange(a, b),
    decreases b - a,
{
    if a == b {
        assert(ls.subrange(a, b) =~= Seq::<Seq<char>>::empty());
        assert(render_lines(ls.take(a), w) + ls.subrange(a, b) == render_lines(ls.take(a), w));
    } else {
        lemma_verbatim_run(ls, a, b - 1, w);
        lemma_render_step(ls, b - 1, w);
        assert(in_fence(ls.take(b - 1)) || is_fence(ls[b - 1]));
        assert(ls.subrange(a, b) =~= ls.subrange(a, b - 1).push(ls[b - 1]));
        assert(render_lines(ls.take(a), w) + ls.subrange(a, b) =~= render_lines(ls.take(a), w)
            + ls.subrange(a, b - 1) + seq![ls[b - 1]]);
    }
}

/// After a delimiter and lines that are not, the count of delimiters is one
/// more than before it.
proof fn lemma_count_after(ls: Seq<Seq<char>>, a: int, j: int)
    requires
        0 <= a < j <= ls.len(),
        is_fence(ls[a]),
        forall|k: int| a < k < j ==> !is_fence(#[trigger] ls[k]),
    ensures
        fence_count(ls.take(j)) == fence_count(ls.take(a)) + 1,
    decreases j - a,
{
    lemma_render_step(ls, j - 1, None);
    if j - 1 > a {
        lemma_count_after(ls, a, j - 1);
    }
}

/// A fenced block, from its opening delimiter to its closing one, comes out
/// as its own lines, unchanged, whatever the width: the output of the lines
/// up to the closing delimiter is that of the lines before the block,
/// followed by the block.
pub proof fn lemma_fenced_block_verbatim(t: Seq<char>, w: Option<usize>, a: int, b: int)
    requires
        0 <= a < b < lines_of(t).len(),
        !in_fence(lines_of(t).take(a)),
        is_fence(lines_of(t)[a]),
        is_fence(lines_of(t)[b]),
        forall|j: int| a < j < b ==> !is_fence(#[trigger] lines_of(t)[j]),
    ensures
        render_lines(lines_of(t).take(b + 1), w) == render_lines(lines_of(t).take(a), w)
            + lines_of(t).subrange(a, b + 1),
{
    let ls = lines_of(t);
    assert forall|j: int| a <= j < b + 1 implies in_fence(#[trigger] ls.take(j)) || is_fence(
        ls[j],
    ) by {
        if j > a {
            lemma_count_after(ls, a, j);
        }
    }
    lemma_verbatim_run(ls, a, b + 1, w);
}

/// With an odd number of delimiters, everything from the last delimiter on
/// comes out as it is, unwrapped.
pub proof fn lemma_unclosed_fence_verbatim(t: Seq<char>, w: Option<usize>, a: int)
    requires
        fence_count(lines_of(t)) % 2 == 1,
        0 <= a < lines_of(t).len(),
        is_fence(lines_of(t)[a]),
        forall|j: int| a < j < lines_of(t).len() ==> !is_fence(#[trigger] lines_of(t)[j]),
    ensures
        render_text(t, w) == render_lines(lines_of(t).take(a), w) + lines_of(t).subrange(
            a,
            lines_of(t).len() as int,
        ),
{
    let ls = lines_of(t);
    let n = ls.len() as int;
    lemma_count_after(ls, a, n);
    assert(ls.take(n) == ls);
    assert forall|j: int| a <= j < n implies in_fence(#[trigger] ls.take(j)) || is_fence(ls[j]) by {
        if j > a {
            lemma_count_after(ls, a, j);
        }
    }
    lemma_verbatim_run(ls, a, n, w);
}

/// Each output line of a line of plain text renders again into itself.
pub proof fn lemma_wrap_refills(l: Seq<char>, w: Option<usize>)
    ensures
        forall|k: int|
            0 <= k < wrap_line(l, w).len() ==> wrap_line(#[trigger] wrap_line(l, w)[k], w) == seq![
                wrap_line(l, w)[k],
            ],
{
    match w {
        None => {},
        Some(n) => {
            lemma_words_shape(l);
            lemma_fill_shape(words(l), n as nat);
            let e = Seq::<char>::empty();
            assert(scan_from((Seq::<Seq<char>>::empty(), e), e) == (Seq::<Seq<char>>::empty(), e));
            assert(words(e) == Seq::<Seq<char>>::empty());
        },
    }
}

/// The output lines of a line hold no newline when the line holds none.
pub proof fn lemma_wrap_no_newline(l: Seq<char>, w: Option<usize>)
    requires
        no_newline(l),
    ensures
        forall|k: int| 0 <= k < wrap_line(l, w).len() ==> no_newline(#[trigger] wrap_line(l, w)[k]),
{
    match w {
        None => {},
        Some(n) => {
            lemma_words_shape(l);
            lemma_fill_shape(words(l), n as nat);
            assert(no_newline(Seq::<char>::empty()));
        },
    }
}

/// The pieces of a text hold no newline.
pub proof fn lemma_pieces_no_newline(t: Seq<char>)
    ensures
        forall|i: int| 0 <= i < pieces(t).len() ==> no_newline(#[trigger] pieces(t)[i]),
    decreases t.len(),
{
    if t.len() > 0 {
        lemma_pieces_no_newline(t.drop_last());
        lemma_pieces_nonempty(t.drop_last());
        let p = pieces(t.drop_last());
        if t.last() != '\n' {
            let q = p.last().push(t.last());
            assert(p[p.len() - 1] == p.last());
            assert(no_newline(q)) by {
                assert forall|j: int| 0 <= j < q.len() implies #[trigger] q[j] != '\n' by {
                    if j < p.last().len() {
                        assert(q[j] == p.last()[j]);
                    }
                }
            }
        }
        assert forall|i: int| 0 <= i < pieces(t).len() implies no_newline(#[trigger] pieces(t)[i]) by {
            if i < p.len() && !(t.last() != '\n' && i == p.len() - 1) {
                assert(pieces(t)[i] == p[i]);
            }
        }
    }
}

/// The lines of a text hold no newline.
pub proof fn lemma_lines_no_newline(t: Seq<char>)
    ensures
        forall|i: int| 0 <= i < lines_of(t).len() ==> no_newline(#[trigger] lines_of(t)[i]),
{
    lemma_pieces_no_newline(t);
    lemma_pieces_nonempty(t);
    let p = pieces(t);
    let ls = lines_of(t);
    assert forall|i: int| 0 <= i < ls.len() implies no_newline(#[trigger] ls[i]) by {
        if i < p.len() - 1 {
            assert(ls[i] == strip_cr(p[i]));
            assert(no_newline(p[i]));
            if p[i].len() > 0 && p[i].last() == '\r' {
                assert forall|j: int| 0 <= j < ls[i].len() implies #[trigger] ls[i][j] != '\n' by {
                    assert(ls[i][j] == p[i][j]);
                }
            }
        } else {
            assert(ls[i] == p[p.len() - 1]);
        }
    }
}

/// Rendered lines hold no newline when the input lines hold none.
pub proof fn lemma_render_no_newline(ls: Seq<Seq<char>>, w: Option<usize>)
    requires
        forall|i: int| 0 <= i < ls.len() ==> no_newline(#[trigger] ls[i]),
    ensures
        forall|k: int| 0 <= k < render_lines(ls, w).len() ==> no_newline(
            #[trigger] render_lines(ls, w)[k],
        ),
    decreases ls.len(),
{
    if ls.len() > 0 {
        let init = ls.drop_last();
        assert forall|i: int| 0 <= i < init.len() implies no_newline(#[trigger] init[i]) by {
            assert(init[i] == ls[i]);
        }
        lemma_render_no_newline(init, w);
        assert(no_newline(ls[ls.len() - 1]));
        lemma_wrap_no_newline(ls.last(), w);
        let a = render_lines(init, w);
        let b = line_out(ls.last(), in_fence(init), w);
        assert forall|k: int| 0 <= k < (a + b).len() implies no_newline(#[trigger] (a + b)[k]) by {
            if k < a.len() {
                assert((a + b)[k] == a[k]);
            } else {
                assert((a + b)[k] == b[k - a.len()]);
            }
        }
    }
}

/// Characters without a newline extend the last piece.
proof fn lemma_pieces_extend(x: Seq<char>, y: Seq<char>)
    requires
        no_newline(y),
    ensures
        pieces(x + y) == pieces(x).update(pieces(x).len() - 1, pieces(x).last() + y),
    decreases y.len(),
{
    lemma_pieces_nonempty(x);
    if y.len() == 0 {
        assert(x + y == x);
        assert(pieces(x).last() + y == pieces(x).last());
        assert(pieces(x).update(pieces(x).len() - 1, pieces(x).last()) =~= pieces(x));
    } else {
        let y0 = y.drop_last();
        assert(no_newline(y0)) by {
            assert forall|j: int| 0 <= j < y0.len() implies #[trigger] y0[j] != '\n' by {
                assert(y0[j] == y[j]);
            }
        }
        lemma_pieces_extend(x, y0);
        assert((x + y).drop_last() == x + y0);
        assert((x + y).last() == y[y.len() - 1]);
        assert((pieces(x).last() + y0).push(y.last()) =~= pieces(x).last() + y);
        assert(pieces(x + y) =~= pieces(x).update(pieces(x).len() - 1, pieces(x).last() + y));
    }
}

/// Splitting joined lines at newlines gives the lines back.
proof fn lemma_pieces_join(r: Seq<Seq<char>>)
    requires
        r.len() > 0,
        forall|k: int| 0 <= k < r.len() ==> no_newline(#[trigger] r[k]),
    ensures
        pieces(join_lines(r)) == r,
    decreases r.len(),
{
    let e = Seq::<char>::empty();
    if r.len() == 1 {
        assert(no_newline(r[0]));
        lemma_pieces_extend(e, r[0]);
        assert(e + r[0] == r[0]);
        assert(pieces(e) == seq![e]);
        assert(seq![e].update(0, e + r[0]) =~= r);
    } else {
        let r0 = r.drop_last();
        assert forall|k: int| 0 <= k < r0.len() implies no_newline(#[trigger] r0[k]) by {
            assert(r0[k] == r[k]);
        }
        lemma_pieces_join(r0);
        let x = join_lines(r0) + seq!['\n'];
        assert(x.drop_last() == join_lines(r0));
        assert(x.last() == '\n');
        assert(pieces(x) == r0.push(e));
        assert(no_newline(r[r.len() - 1]));
        lemma_pieces_extend(x, r.last());
        assert(e + r.last() == r.last());
        assert(r0.push(e).update(r0.len() as int, e + r.last()) =~= r);
    }
}

/// Whether `s` ends with a carriage return.
pub open spec fn ends_with_cr(s: Seq<char>) -> bool {
    s.len() > 0 && s.last() == '\r'
}

/// Joining lines and splitting the result into lines again gives the lines
/// back, when none holds a newline, none but the last ends with a carriage
/// return, and the last is not empty.
pub proof fn lemma_lines_of_join(r: Seq<Seq<char>>)
    requires
        forall|k: int| 0 <= k < r.len() ==> no_newline(#[trigger] r[k]),
        forall|k: int| 0 <= k < r.len() - 1 ==> !ends_with_cr(#[trigger] r[k]),
        r.len() == 0 || r.last().len() > 0,
    ensures
        lines_of(join_lines(r)) == r,
{
    if r.len() == 0 {
        let e = Seq::<char>::empty();
        assert(pieces(e) == seq![e]);
        assert(lines_of(e) =~= r);
    } else {
        lemma_pieces_join(r);
        let ended = r.drop_last().map_values(|x: Seq<char>| strip_cr(x));
        assert(ended =~= r.drop_last()) by {
            assert forall|k: int| 0 <= k < r.len() - 1 implies ended[k] == r.drop_last()[k] by {
                assert(!ends_with_cr(r[k]));
            }
        }
        assert(lines_of(join_lines(r)) =~= r);
    }
}

/// Whether no line that wrapping makes from a line of `ls` is a fence
/// delimiter.
pub open spec fn wrap_keeps_fences(ls: Seq<Seq<char>>, w: Option<usize>) -> bool {
    forall|i: int|
        0 <= i < ls.len() && !in_fence(ls.take(i)) && !is_fence(ls[i]) ==> forall|k: int|
            0 <= k < wrap_line(ls[i], w).len() ==> !is_fence(#[trigger] wrap_line(ls[i], w)[k])
}

/// Output lines that are no delimiters and render into themselves, after
/// output that renders into itself outside a fence, render into themselves.
proof fn lemma_rerender_prefix(r0: Seq<Seq<char>>, o: Seq<Seq<char>>, k: int, w: Option<usize>)
    requires
        0 <= k <= o.len(),
        render_lines(r0, w) == r0,
        !in_fence(r0),
        forall|i: int| 0 <= i < o.len() ==> !is_fence(#[trigger] o[i]),
        forall|i: int| 0 <= i < o.len() ==> wrap_line(#[trigger] o[i], w) == seq![o[i]],
    ensures
        render_lines(r0 + o.take(k), w) == r0 + o.take(k),
        fence_count(r0 + o.take(k)) == fence_count(r0),
    decreases k,
{
    if k == 0 {
        assert(r0 + o.take(0) == r0);
    } else {
        lemma_rerender_prefix(r0, o, k - 1, w);
        let x = r0 + o.take(k);
        assert(x.drop_last() == r0 + o.take(k - 1));
        assert(x.last() == o[k - 1]);
        assert(!is_fence(o[k - 1]));
        assert(x =~= r0 + o.take(k - 1) + seq![o[k - 1]]);
    }
}

/// Rendering a line's output once more, after output that renders into
/// itself, changes nothing, and leaves the fence as the line left it.
proof fn lemma_rerender_line(r0: Seq<Seq<char>>, l: Seq<char>, open: bool, w: Option<usize>)
    requires
        render_lines(r0, w) == r0,
        in_fence(r0) == open,
        !open && !is_fence(l) ==> forall|k: int|
            0 <= k < wrap_line(l, w).len() ==> !is_fence(#[trigger] wrap_line(l, w)[k]),
    ensures
        render_lines(r0 + line_out(l, open, w), w) == r0 + line_out(l, open, w),
        fence_count(r0 + line_out(l, open, w)) == fence_count(r0) + if is_fence(l) {
            1nat
        } else {
            0nat
        },
{
    let o = line_out(l, open, w);
    if open || is_fence(l) {
        assert((r0 + o).drop_last() == r0);
        assert((r0 + o).last() == l);
    } else {
        lemma_wrap_refills(l, w);
        lemma_rerender_prefix(r0, o, o.len() as int, w);
        assert(o.take(o.len() as int) == o);
    }
}

/// Rendering rendered lines again gives them back, when wrapping made no
/// delimiter; the fence ends as it did.
proof fn lemma_rerender_lines(ls: Seq<Seq<char>>, w: Option<usize>)
    requires
        wrap_keeps_fences(ls, w),
    ensures
        render_lines(render_lines(ls, w), w) == render_lines(ls, w),
        in_fence(render_lines(ls, w)) == in_fence(ls),
    decreases ls.len(),
{
    if ls.len() > 0 {
        let init = ls.drop_last();
        let l = ls.last();
        assert(wrap_keeps_fences(init, w)) by {
            assert forall|i: int| 0 <= i < init.len() && !in_fence(init.take(i)) && !is_fence(init[i])
                implies forall|k: int|
                0 <= k < wrap_line(init[i], w).len() ==> !is_fence(
                    #[trigger] wrap_line(init[i], w)[k],
                ) by {
                assert(init.take(i) == ls.take(i));
                assert(init[i] == ls[i]);
            }
        }
        lemma_rerender_lines(init, w);
        assert(ls.take(ls.len() - 1) == init);
        assert(ls[ls.len() - 1] == l);
        lemma_rerender_line(render_lines(init, w), l, in_fence(init), w);
    }
}

/// Rendering the joined output of a render at the same width gives the same
/// lines again. This holds where wrapping made no line that reads as a fence
/// delimiter, the output does not end in an empty line, and no output line
/// but the last ends with a carriage return.
pub proof fn lemma_rerender_stable(t: Seq<char>, w: Option<usize>)
    requires
        wrap_keeps_fences(lines_of(t), w),
        render_text(t, w).len() == 0 || render_text(t, w).last().len() > 0,
        forall|k: int|
            0 <= k < render_text(t, w).len() - 1 ==> !ends_with_cr(#[trigger] render_text(t, w)[k]),
    ensures
        render_text(join_lines(render_text(t, w)), w) == render_text(t, w),
{
    let r = render_text(t, w);
    lemma_lines_no_newline(t);
    lemma_render_no_newline(lines_of(t), w);
    lemma_lines_of_join(r);
    lemma_rerender_lines(lines_of(t), w);
}

} // verus!
