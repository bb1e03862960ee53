//! Literal substring search over the characters of a line, and splitting a
//! text into lines.

use vstd::prelude::*;

verus! {

/// `needle` occurs in `hay` starting at position `i`.
pub open spec fn occurs_at(hay: Seq<char>, needle: Seq<char>, i: int) -> bool {
    0 <= i && i + needle.len() <= hay.len() && hay.subrange(i, i + needle.len()) == needle
}

/// `needle` occurs somewhere in `hay` (the empty needle occurs in every text).
pub open spec fn has_substring(hay: Seq<char>, needle: Seq<char>) -> bool {
    exists|i: int| occurs_at(hay, needle, i)
}

fn chars_of(s: &str) -> (r: Vec<char>)
    ensures
        r@ == s@,
{
    let mut out: Vec<char> = Vec::new();
    for c in it: s.chars()
        invariant
            out@ == it.seq().take(it.index() as int),
    {
        out.push(c);
    }
    assert(out@ =~= s@);
    out
}

fn matches_at(hay: &Vec<char>, needle: &Vec<char>, i: usize) -> (r: bool)
    requires
        i + needle@.len() <= hay@.len(),
    ensures
        r == occurs_at(hay@, needle@, i as int),
{
    let n: usize = hay.len();
    let mut k: usize = 0;
    while k < needle.len()
        invariant
            n == hay@.len(),
            i + needle@.len() <= hay@.len(),
            k <= needle@.len(),
            forall|m: int| 0 <= m < k ==> hay@[i + m] == needle@[m],
        decreases needle@.len() - k,
    {
        assert(i + k < hay@.len());
        if hay[i + k] != needle[k] {
            assert(hay@.subrange(i as int, i + needle@.len())[k as int] != needle@[k as int]);
            return false;
        }
        k = k + 1;
    }
    assert(hay@.subrange(i as int, i + needle@.len()) =~= needle@);
    true
}

/// Whether `marker` occurs literally in `line` (no pattern syntax is involved).
pub fn contains_marker(line: &str, marker: &str) -> (r: bool)
    ensures
        r == has_substring(line@, marker@),
{
    let hay = chars_of(line);
    let needle = chars_of(marker);
    if needle.len() > hay.len() {
        assert forall|i: int| !occurs_at(hay@, needle@, i) by {}
        return false;
    }
    let last: usize = hay.len() - needle.len();
    let mut i: usize = 0;
    loop
        invariant
            hay@ == line@,
            needle@ == marker@,
            last == hay@.len() - needle@.len(),
            i <= last,
            forall|j: int| 0 <= j < i ==> !occurs_at(hay@, needle@, j),
        decreases last - i,
    {
        if matches_at(&hay, &needle, i) {
            assert(occurs_at(hay@, needle@, i as int));
            return true;
        }
        if i == last {
            assert forall|j: int| !occurs_at(hay@, needle@, j) by {
                if 0 <= j < i {
                }
            }
            return false;
        }
        i = i + 1;
    }
}

/// The pieces of `s` between its newline characters: one more than there are
/// newlines.
pub open spec fn pieces(s: Seq<char>) -> Seq<Seq<char>>
    decreases s.len(),
{
    if s.len() == 0 {
        seq![Seq::empty()]
    } else {
        let p = pieces(s.drop_last());
        if s.last() == '\n' {
            p.push(Seq::empty())
        } else {
            p.update(p.len() - 1, p.last().push(s.last()))
        }
    }
}

/// A piece that was ended by a newline loses one carriage return before it.
pub open spec fn strip_cr(x: Seq<char>) -> Seq<char> {
    if x.len() > 0 && x.last() == '\r' {
        x.drop_last()
    } else {
        x
    }
}

/// The lines of a text: each newline ends a line (a carriage return right
/// before it goes too), and a last piece without a newline is a line when it
/// is not empty.
pub open spec fn lines_of(s: Seq<char>) -> Seq<Seq<char>> {
    let p = pieces(s);
    let ended = p.drop_last().map_values(|x: Seq<char>| strip_cr(x));
    if p.last().len() == 0 {
        ended
    } else {
        ended.push(p.last())
    }
}

/// Relies on String::push: appends one character.
#[verifier::external_body]
fn push_char(s: &mut String, c: char)
    ensures
        final(s)@ == old(s)@.push(c),
{
    s.push(c)
}

proof fn lemma_pieces_nonempty(s: Seq<char>)
    ensures
        pieces(s).len() >= 1,
    decreases s.len(),
{
    if s.len() > 0 {
        lemma_pieces_nonempty(s.drop_last());
    }
}

/// Splits a text into its lines, as `lines_of` says.
pub fn split_lines(content: &str) -> (r: Vec<String>)
    ensures
        r@.map_values(|l: String| l@) == lines_of(content@),
{
    let cs = chars_of(content);
    let mut out: Vec<String> = Vec::new();
    let mut current = String::new();
    let mut pending_cr = false;
    let mut i: usize = 0;
    while i < cs.len()
        invariant
            cs@ == content@,
            i <= cs@.len(),
            pieces(cs@.take(i as int)).len() == out@.len() + 1,
            out@.map_values(|l: String| l@) == pieces(cs@.take(i as int)).drop_last().map_values(
                |x: Seq<char>| strip_cr(x),
            ),
            !pending_cr ==> current@.len() == 0 || current@.last() != '\r',
            pieces(cs@.take(i as int)).last() == if pending_cr {
                current@.push('\r')
            } else {
                current@
            },
        decreases cs@.len() - i,
    {
        let c = cs[i];
        let ghost before = cs@.take(i as int);
        let ghost after = cs@.take(i + 1);
        let ghost pb = pieces(before);
        let ghost old_out = out@;
        assert(after.drop_last() =~= before);
        assert(after.last() == c);
        proof {
            lemma_pieces_nonempty(before);
        }
        if c == '\n' {
            let line = current;
            current = String::new();
            pending_cr = false;
            out.push(line);
            assert(strip_cr(pb.last()) =~= line@);
            assert(pieces(after) =~= pb.push(Seq::empty()));
            assert(pieces(after).drop_last() =~= pb);
            assert(out@.map_values(|l: String| l@) =~= old_out.map_values(|l: String| l@).push(line@));
            assert(pb.map_values(|x: Seq<char>| strip_cr(x)) =~= pb.drop_last().map_values(
                |x: Seq<char>| strip_cr(x),
            ).push(strip_cr(pb.last())));
            assert(out@.map_values(|l: String| l@) =~= pieces(after).drop_last().map_values(
                |x: Seq<char>| strip_cr(x),
            ));
            assert(pieces(after).last() =~= current@);
        } else {
            if pending_cr {
                push_char(&mut current, '\r');
            }
            if c == '\r' {
                pending_cr = true;
            } else {
                push_char(&mut current, c);
                pending_cr = false;
            }
            assert(pieces(after).drop_last() =~= pb.drop_last());
            assert(pieces(after).last() =~= if pending_cr {
                current@.push('\r')
            } else {
                current@
            });
        }
        i = i + 1;
    }
    assert(cs@.take(i as int) =~= cs@);
    if pending_cr {
        push_char(&mut current, '\r');
    }
    if !current.as_str().is_empty() {
        let ghost old_out = out@;
        out.push(current);
        assert(out@.map_values(|l: String| l@) =~= old_out.map_values(|l: String| l@).push(current@));
    } else {
        assert(current@.len() == 0);
    }
    out
}

} // verus!
