//! Reading the end of the console log and picking the lines not yet handled.
use crate::text::{chars_of, string_of};
use vstd::prelude::*;

verus! {

/// How many bytes at the end of the log are read by default.
pub const DEFAULT_CHUNK_SIZE: u64 = 2048;

/// How many of the last lines of the text read are looked at.
pub const WINDOW_LINES: usize = 12;

/// Texts read from the log with this many lines or fewer are too short to
/// look at yet.
pub const MIN_LINES: usize = 6;

/// Where to start reading to get the last `chunk_size` bytes of a file of
/// `file_size` bytes: the start of the file when it is shorter than that.
pub open spec fn tail_start_of(file_size: nat, chunk_size: nat) -> nat {
    if file_size < chunk_size {
        0
    } else {
        (file_size - chunk_size) as nat
    }
}

/// The pieces of `s` between line feeds, in order (what `split('\n')`
/// gives): a text with `n` line feeds has `n + 1` pieces.
pub open spec fn split_lines(s: Seq<char>) -> Seq<Seq<char>>
    decreases s.len(),
{
    if s.len() == 0 {
        seq![Seq::<char>::empty()]
    } else {
        let prev = split_lines(s.drop_last());
        if s.last() == '\n' {
            prev.push(Seq::<char>::empty())
        } else {
            prev.update(prev.len() - 1, prev.last().push(s.last()))
        }
    }
}

/// The position of the last occurrence of `x` in `s`, or -1.
pub open spec fn last_index_of(s: Seq<Seq<char>>, x: Seq<char>) -> int
    decreases s.len(),
{
    if s.len() == 0 {
        -1
    } else if s.last() == x {
        s.len() - 1
    } else {
        last_index_of(s.drop_last(), x)
    }
}

/// The last `WINDOW_LINES` lines.
pub open spec fn window(lines: Seq<Seq<char>>) -> Seq<Seq<char>> {
    lines.skip(lines.len() - WINDOW_LINES)
}

/// The lines of the window after the last occurrence of `last_line`; when
/// `last_line` is not in the window, every line of the window but the first.
pub open spec fn unseen_lines(lines: Seq<Seq<char>>, last_line: Seq<char>) -> Seq<Seq<char>> {
    let w = window(lines);
    let j = last_index_of(w, last_line);
    if j < 0 {
        w.skip(1)
    } else {
        w.skip(j + 1)
    }
}

/// The texts held by a list of strings.
pub open spec fn texts(v: Seq<String>) -> Seq<Seq<char>> {
    v.map_values(|l: String| l@)
}

/// What a look at the end of the log finds.
pub enum Scan {
    /// The log has too few lines yet; wait for more output.
    Waiting,
    /// The log has more than `MIN_LINES` lines but fewer than
    /// `WINDOW_LINES`, which the window cannot be taken from.
    TooShort,
    /// The lines to handle, oldest first.
    Lines(Vec<String>),
}

/// Where reading starts to get the last `chunk_size` bytes of a file of
/// `file_size` bytes (how `LastLines` places its start). The bytes from there
/// to the end are `chunk_size` many, or the whole file when it is shorter.
pub fn tail_start(file_size: u64, chunk_size: u64) -> (r: u64)
    ensures
        r == tail_start_of(file_size as nat, chunk_size as nat),
        r <= file_size,
        file_size - r == if file_size < chunk_size {
            file_size
        } else {
            chunk_size
        },
{
    if file_size < chunk_size {
        0
    } else {
        file_size - chunk_size
    }
}

proof fn lemma_after_last_index(s: Seq<Seq<char>>, x: Seq<char>)
    ensures
        -1 <= last_index_of(s, x) < s.len(),
        last_index_of(s, x) >= 0 ==> s[last_index_of(s, x)] == x,
        forall|k: int| last_index_of(s, x) < k < s.len() ==> s[k] != x,
    decreases s.len(),
{
    if s.len() > 0 && s.last() != x {
        lemma_after_last_index(s.drop_last(), x);
        assert forall|k: int| last_index_of(s, x) < k < s.len() implies s[k] != x by {
            if k < s.len() - 1 {
                assert(s[k] == s.drop_last()[k]);
            }
        }
    }
}

/// No kill line is handled twice from the same window: when the last line
/// handled is among the last `WINDOW_LINES` lines, none of the lines picked
/// is equal to it, and when it is the very last line nothing is picked.
pub proof fn lemma_handled_line_not_picked_again(lines: Seq<Seq<char>>, last_line: Seq<char>)
    requires
        lines.len() >= WINDOW_LINES,
        window(lines).contains(last_line),
    ensures
        forall|i: int|
            0 <= i < unseen_lines(lines, last_line).len() ==> #[trigger] unseen_lines(
                lines,
                last_line,
            )[i] != last_line,
        lines.last() == last_line ==> unseen_lines(lines, last_line).len() == 0,
{
    let w = window(lines);
    lemma_after_last_index(w, last_line);
    let j = last_index_of(w, last_line);
    let i0 = choose|i: int| 0 <= i < w.len() && w[i] == last_line;
    assert(j >= 0) by {
        if j < 0 {
            assert(w[i0] != last_line);
        }
    }
    assert forall|i: int|
        0 <= i < unseen_lines(lines, last_line).len() implies #[trigger] unseen_lines(
        lines,
        last_line,
    )[i] != last_line by {
        assert(unseen_lines(lines, last_line)[i] == w[j + 1 + i]);
    }
    if lines.last() == last_line {
        assert(w.last() == lines.last());
        assert(j == w.len() - 1);
    }
}

/// Which lines of the window are handed back, said without `last_index_of`:
/// when `last_line` is not among the last `WINDOW_LINES` lines, they are
/// all those lines but the first, whatever `last_line` is; when it is
/// among them, they are the lines after its last occurrence there.
pub proof fn lemma_unseen_lines_after_last_occurrence(lines: Seq<Seq<char>>, last_line: Seq<char>)
    requires
        lines.len() >= WINDOW_LINES,
    ensures
        ({
            let w = lines.subrange(lines.len() - WINDOW_LINES, lines.len() as int);
            let r = unseen_lines(lines, last_line);
            &&& !w.contains(last_line) ==> r == w.subrange(1, w.len() as int)
            &&& w.contains(last_line) ==> exists|j: int|
                0 <= j < w.len() && w[j] == last_line && r == w.subrange(j + 1, w.len() as int)
                    && forall|k: int| j < k < w.len() ==> #[trigger] w[k] != last_line
        }),
{
    let w = lines.subrange(lines.len() - WINDOW_LINES, lines.len() as int);
    assert(window(lines) == w);
    lemma_after_last_index(w, last_line);
    let j = last_index_of(w, last_line);
    if !w.contains(last_line) {
        if j >= 0 {
            assert(w[j] == last_line);
        }
        assert(unseen_lines(lines, last_line) =~= w.subrange(1, w.len() as int));
    } else {
        let i0 = choose|i: int| 0 <= i < w.len() && w[i] == last_line;
        if j < 0 {
            assert(w[i0] != last_line);
        }
        assert(unseen_lines(lines, last_line) =~= w.subrange(j + 1, w.len() as int));
    }
}

/// Splits `text` at its line feeds (`text.split('\n')`).
pub fn lines_of(text: &str) -> (r: Vec<String>)
    ensures
        texts(r@) == split_lines(text@),
{
    let cs = chars_of(text);
    let mut lines: Vec<String> = Vec::new();
    let mut cur: Vec<char> = Vec::new();
    let mut i: usize = 0;
    proof {
        assert(cs@.take(0) == Seq::<char>::empty());
        assert(texts(lines@).push(cur@) =~= split_lines(cs@.take(0)));
    }
    while i < cs.len()
        invariant
            i <= cs@.len(),
            split_lines(cs@.take(i as int)) == texts(lines@).push(cur@),
        decreases cs@.len() - i,
    {
        let c = cs[i];
        let ghost before = texts(lines@);
        let ghost cur_before = cur@;
        proof {
            assert(cs@.take(i + 1).drop_last() == cs@.take(i as int));
            assert(cs@.take(i + 1).last() == c);
        }
        if c == '\n' {
            let line = string_of(&cur);
            lines.push(line);
            cur = Vec::new();
            proof {
                assert(texts(lines@) =~= before.push(cur_before));
                assert(texts(lines@).push(cur@) =~= before.push(cur_before).push(Seq::empty()));
            }
        } else {
            cur.push(c);
            proof {
                assert(texts(lines@) == before);
                assert(texts(lines@).push(cur@) =~= before.push(cur_before).update(
                    before.len() as int,
                    cur_before.push(c),
                ));
            }
        }
        i = i + 1;
    }
    let line = string_of(&cur);
    let ghost before = texts(lines@);
    lines.push(line);
    proof {
        assert(cs@.take(cs@.len() as int) == cs@);
        assert(texts(lines@) =~= before.push(cur@));
    }
    lines
}

/// Looks at the text read from the end of the log and picks the lines not
/// handled yet: the last `WINDOW_LINES` lines that come after the last
/// occurrence of `last_line` among them (after the first of them when
/// `last_line` is not there). Texts of at most `MIN_LINES` lines give
/// `Waiting`; texts of more lines but fewer than `WINDOW_LINES` give
/// `TooShort`.
pub fn scan_log(text: &str, last_line: &str) -> (r: Scan)
    ensures
        ({
            let lines = split_lines(text@);
            match r {
                Scan::Waiting => lines.len() <= MIN_LINES,
                Scan::TooShort => MIN_LINES < lines.len() < WINDOW_LINES,
                Scan::Lines(v) => WINDOW_LINES <= lines.len() && texts(v@) == unseen_lines(
                    lines,
                    last_line@,
                ),
            }
        }),
{
    let lines = lines_of(text);
    let n = lines.len();
    if n <= MIN_LINES {
        return Scan::Waiting;
    }
    if n < WINDOW_LINES {
        return Scan::TooShort;
    }
    let ghost all = texts(lines@);
    let start = n - WINDOW_LINES;
    let ghost w = window(all);
    let last = last_line.to_owned();
    let mut found: Option<usize> = None;
    let mut k: usize = start;
    proof {
        assert(w.take(0) == Seq::<Seq<char>>::empty());
    }
    while k < n
        invariant
            n == lines@.len(),
            start == n - WINDOW_LINES,
            start <= k <= n,
            w == all.skip(start as int),
            all == texts(lines@),
            last@ == last_line@,
            match found {
                Some(j) => start <= j < k && last_index_of(w.take(k - start), last@) == j - start,
                None => last_index_of(w.take(k - start), last@) == -1,
            },
        decreases n - k,
    {
        proof {
            let t = w.take(k + 1 - start);
            assert(t.drop_last() == w.take(k - start));
            assert(t.last() == all[k as int]);
            assert(all[k as int] == lines@[k as int]@);
        }
        if lines[k] == last {
            found = Some(k);
        }
        k = k + 1;
    }
    proof {
        assert(w.take(n - start) == w);
    }
    let from = match found {
        Some(j) => j + 1,
        None => start + 1,
    };
    let mut out: Vec<String> = Vec::new();
    let mut m: usize = from;
    while m < n
        invariant
            n == lines@.len(),
            start + 1 <= from <= m <= n,
            all == texts(lines@),
            texts(out@) == all.subrange(from as int, m as int),
        decreases n - m,
    {
        let ghost prev = texts(out@);
        out.push(lines[m].clone());
        proof {
            assert(all.subrange(from as int, m + 1) =~= all.subrange(from as int, m as int).push(
                lines@[m as int]@,
            ));
            assert(texts(out@) =~= prev.push(lines@[m as int]@));
        }
        m = m + 1;
    }
    proof {
        assert(all.subrange(from as int, n as int) =~= w.skip(from - start));
    }
    Scan::Lines(out)
}

} // verus!
