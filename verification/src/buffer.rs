//! Merged record of the agent's two output streams.
//!
//! One invocation of the agent produces a standard-output stream and a
//! standard-error stream. Each line observed on either stream is appended,
//! followed by a newline, to one shared accumulation buffer; the buffer keeps
//! only the relative order in which the lines were observed, not which stream
//! they came from. The buffer exists solely so the completion marker can be
//! scanned for afterwards.

use vstd::prelude::*;
use vstd::multiset::Multiset;
use crate::text::{contains_seq, contains_str, is_match_at, lemma_contains_extend};

verus! {

/// The merged text of a line log: every line in order, each followed by a newline.
pub open spec fn join_lines(lines: Seq<Seq<char>>) -> Seq<char>
    decreases lines.len(),
{
    if lines.len() == 0 {
        Seq::empty()
    } else {
        join_lines(lines.drop_last()) + lines.last() + "\n"@
    }
}

/// Accumulation buffer for a single agent invocation. Its abstract value is
/// the log of lines in arrival order; the stored text is their join, each
/// line followed by a newline.
pub struct OutputBuffer {
    text: String,
    log: Ghost<Seq<Seq<char>>>,
}

impl View for OutputBuffer {
    type V = Seq<Seq<char>>;

    closed spec fn view(&self) -> Seq<Seq<char>> {
        self.log@
    }
}

impl OutputBuffer {
    /// The stored text is exactly the join of the logged lines.
    pub closed spec fn wf(self) -> bool {
        self.text@ == join_lines(self.log@)
    }

    /// A fresh, empty buffer; one is created per invocation.
    pub fn new() -> (r: OutputBuffer)
        ensures
            r.wf(),
            r@ == Seq::<Seq<char>>::empty(),
    {
        OutputBuffer { text: String::new(), log: Ghost(Seq::empty()) }
    }

    /// Records one observed line: appended whole, followed by a newline.
    pub fn push_line(&mut self, line: &str)
        requires
            old(self).wf(),
        ensures
            final(self).wf(),
            final(self)@ == old(self)@.push(line@),
    {
        self.text.append(line);
        self.text.append("\n");
        proof {
            self.log@ = self.log@.push(line@);
            assert(self.log@.drop_last() =~= old(self).log@);
            assert(self.text@ =~= join_lines(self.log@));
        }
    }

    /// The merged text, for display or inspection.
    pub fn merged_text(&self) -> (r: &str)
        requires
            self.wf(),
        ensures
            r@ == join_lines(self@),
    {
        self.text.as_str()
    }

    /// Raw substring scan of the merged text for the completion marker.
    pub fn contains_marker(&self, marker: &str) -> (r: bool)
        requires
            self.wf(),
        ensures
            r == contains_seq(join_lines(self@), marker@),
    {
        contains_str(self.text.as_str(), marker)
    }
}

/// Every logged line occurs, contiguously and untruncated, in the merged text.
pub proof fn lemma_join_lines_contains_each(lines: Seq<Seq<char>>, i: int)
    requires
        0 <= i < lines.len(),
    ensures
        contains_seq(join_lines(lines), lines[i]),
    decreases lines.len(),
{
    let pre = join_lines(lines.drop_last());
    if i == lines.len() - 1 {
        assert(is_match_at(join_lines(lines), lines[i], pre.len() as int)) by {
            assert(join_lines(lines).subrange(
                pre.len() as int,
                pre.len() + lines[i].len() as int,
            ) =~= lines[i]);
        }
    } else {
        lemma_join_lines_contains_each(lines.drop_last(), i);
        lemma_contains_extend(pre, lines.last() + "\n"@, lines[i]);
        assert(join_lines(lines) =~= pre + (lines.last() + "\n"@));
    }
}

/// The views of a sequence of lines.
pub open spec fn line_views(lines: Seq<String>) -> Seq<Seq<char>> {
    Seq::new(lines.len(), |i: int| lines[i]@)
}

/// How many schedule slots take the next standard-output line.
pub open spec fn count_true(sched: Seq<bool>) -> int
    decreases sched.len(),
{
    if sched.len() == 0 {
        0
    } else {
        count_true(sched.drop_last()) + if sched.last() {
            1int
        } else {
            0int
        }
    }
}

pub proof fn lemma_count_true_bounds(sched: Seq<bool>)
    ensures
        0 <= count_true(sched) <= sched.len(),
    decreases sched.len(),
{
    if sched.len() > 0 {
        lemma_count_true_bounds(sched.drop_last());
    }
}

/// Counting true slots splits at any cut point.
pub proof fn lemma_count_true_split(sched: Seq<bool>, k: int)
    requires
        0 <= k <= sched.len(),
    ensures
        count_true(sched) == count_true(sched.subrange(0, k)) + count_true(
            sched.subrange(k, sched.len() as int),
        ),
    decreases sched.len(),
{
    if k == sched.len() {
        assert(sched.subrange(0, k) =~= sched);
        assert(sched.subrange(k, sched.len() as int) =~= Seq::<bool>::empty());
    } else {
        let body = sched.drop_last();
        lemma_count_true_split(body, k);
        assert(body.subrange(0, k) =~= sched.subrange(0, k));
        assert(sched.subrange(k, sched.len() as int).drop_last() =~= body.subrange(
            k,
            body.len() as int,
        ));
        assert(sched.subrange(k, sched.len() as int).last() == sched.last());
    }
}

/// The line order produced by a schedule: a true slot takes the next pending
/// standard-output line, a false slot the next pending standard-error line.
pub open spec fn interleave(a: Seq<Seq<char>>, b: Seq<Seq<char>>, sched: Seq<bool>) -> Seq<
    Seq<char>,
>
    decreases sched.len(),
{
    if sched.len() == 0 {
        Seq::empty()
    } else if sched.last() {
        if a.len() > 0 {
            interleave(a.drop_last(), b, sched.drop_last()).push(a.last())
        } else {
            interleave(a, b, sched.drop_last())
        }
    } else {
        if b.len() > 0 {
            interleave(a, b.drop_last(), sched.drop_last()).push(b.last())
        } else {
            interleave(a, b, sched.drop_last())
        }
    }
}

/// Whatever the interleaving, the merged log holds every line emitted on
/// either stream, each exactly once: no loss, no duplication.
pub proof fn lemma_interleave_lines_once(a: Seq<Seq<char>>, b: Seq<Seq<char>>, sched: Seq<bool>)
    requires
        sched.len() == a.len() + b.len(),
        count_true(sched) == a.len(),
    ensures
        interleave(a, b, sched).to_multiset() =~= a.to_multiset().add(b.to_multiset()),
    decreases sched.len(),
{
    broadcast use vstd::seq_lib::group_to_multiset_ensures;

    lemma_count_true_bounds(sched);
    if sched.len() == 0 {
        assert(a =~= Seq::<Seq<char>>::empty());
        assert(b =~= Seq::<Seq<char>>::empty());
        assert forall|x: Seq<char>|
            a.to_multiset().add(b.to_multiset()).count(x) == 0
                && interleave(a, b, sched).to_multiset().count(x) == 0 by {
            if a.to_multiset().count(x) > 0 {
                assert(a.contains(x));
            }
            if b.to_multiset().count(x) > 0 {
                assert(b.contains(x));
            }
            if interleave(a, b, sched).to_multiset().count(x) > 0 {
                assert(interleave(a, b, sched).contains(x));
            }
        }
    } else if sched.last() {
        lemma_count_true_bounds(sched.drop_last());
        assert(a.len() > 0);
        lemma_interleave_lines_once(a.drop_last(), b, sched.drop_last());
        assert(a =~= a.drop_last().push(a.last()));
        assert(a.to_multiset() =~= a.drop_last().to_multiset().insert(a.last()));
        assert(interleave(a, b, sched).to_multiset() =~= interleave(
            a.drop_last(),
            b,
            sched.drop_last(),
        ).to_multiset().insert(a.last()));
        assert(a.drop_last().to_multiset().insert(a.last()).add(b.to_multiset())
            =~= a.drop_last().to_multiset().add(b.to_multiset()).insert(a.last()));
    } else {
        lemma_count_true_bounds(sched.drop_last());
        assert(b.len() > 0);
        lemma_interleave_lines_once(a, b.drop_last(), sched.drop_last());
        assert(b =~= b.drop_last().push(b.last()));
        assert(b.to_multiset() =~= b.drop_last().to_multiset().insert(b.last()));
        assert(interleave(a, b, sched).to_multiset() =~= interleave(
            a,
            b.drop_last(),
            sched.drop_last(),
        ).to_multiset().insert(b.last()));
        assert(a.to_multiset().add(b.drop_last().to_multiset().insert(b.last()))
            =~= a.to_multiset().add(b.drop_last().to_multiset()).insert(b.last()));
    }
}

/// Drains two fully-read streams into one buffer following a schedule: the
/// slot order stands for the order in which the two stream readers were
/// observed to have a line ready.
pub fn merge_streams(out_lines: &Vec<String>, err_lines: &Vec<String>, sched: &Vec<bool>) -> (r:
    OutputBuffer)
    requires
        sched@.len() == out_lines@.len() + err_lines@.len(),
        count_true(sched@) == out_lines@.len(),
    ensures
        r.wf(),
        r@ == interleave(line_views(out_lines@), line_views(err_lines@), sched@),
{
    let mut buf = OutputBuffer::new();
    let mut i: usize = 0;
    let mut j: usize = 0;
    let mut k: usize = 0;
    while k < sched.len()
        invariant
            i + j == k,
            k <= sched@.len(),
            i <= out_lines@.len(),
            j <= err_lines@.len(),
            sched@.len() == out_lines@.len() + err_lines@.len(),
            count_true(sched@) == out_lines@.len(),
            count_true(sched@.subrange(0, k as int)) == i,
            buf.wf(),
            buf@ == interleave(
                line_views(out_lines@).subrange(0, i as int),
                line_views(err_lines@).subrange(0, j as int),
                sched@.subrange(0, k as int),
            ),
        decreases sched@.len() - k,
    {
        proof {
            assert(sched@.subrange(0, k + 1int).drop_last() =~= sched@.subrange(0, k as int));
            assert(count_true(sched@.subrange(0, k + 1int)) == i + if sched@[k as int] {
                1int
            } else {
                0int
            });
            lemma_count_true_split(sched@, k + 1int);
            lemma_count_true_bounds(sched@.subrange(k + 1int, sched@.len() as int));
        }
        if sched[k] {
            proof {
                assert(i < out_lines@.len());
                assert(line_views(out_lines@).subrange(0, i + 1int).drop_last() =~= line_views(
                    out_lines@,
                ).subrange(0, i as int));
            }
            buf.push_line(out_lines[i].as_str());
            i += 1;
        } else {
            proof {
                assert(j < err_lines@.len());
                assert(line_views(err_lines@).subrange(0, j + 1int).drop_last() =~= line_views(
                    err_lines@,
                ).subrange(0, j as int));
            }
            buf.push_line(err_lines[j].as_str());
            j += 1;
        }
        k += 1;
    }
    proof {
        assert(sched@.subrange(0, sched@.len() as int) =~= sched@);
        assert(line_views(out_lines@).subrange(0, i as int) =~= line_views(out_lines@));
        assert(line_views(err_lines@).subrange(0, j as int) =~= line_views(err_lines@));
    }
    buf
}

} // verus!
