//! Extracting the generated text from what the inference binary printed:
//! its log lines and blank lines are dropped, the rest kept in order.
use vstd::prelude::*;

use crate::text::{chars_of, is_space, is_space_spec, string_of_chars};

verus! {

/// A line as `str::lines` yields it: without a final carriage return.
pub open spec fn strip_cr(l: Seq<char>) -> Seq<char> {
    if l.len() > 0 && l.last() == '\r' {
        l.drop_last()
    } else {
        l
    }
}

/// The lines of `s`, with `cur` already read as the start of the first; a
/// final line feed ends the last line and starts no new one.
pub open spec fn lines_from(s: Seq<char>, cur: Seq<char>) -> Seq<Seq<char>>
    decreases s.len(),
{
    if s.len() == 0 {
        if cur.len() == 0 {
            seq![]
        } else {
            seq![strip_cr(cur)]
        }
    } else if s[0] == '\n' {
        seq![strip_cr(cur)] + lines_from(s.drop_first(), seq![])
    } else {
        lines_from(s.drop_first(), cur.push(s[0]))
    }
}

pub open spec fn lines(s: Seq<char>) -> Seq<Seq<char>> {
    lines_from(s, seq![])
}

pub open spec fn contains(l: Seq<char>, pat: Seq<char>) -> bool {
    exists|i: int| 0 <= i && i + pat.len() <= l.len() && #[trigger] l.subrange(i, i + pat.len()) == pat
}

pub open spec fn is_blank(l: Seq<char>) -> bool {
    forall|k: int| 0 <= k < l.len() ==> is_space_spec(#[trigger] l[k])
}

pub open spec fn llama_marker() -> Seq<char> {
    seq!['l', 'l', 'a', 'm', 'a', '_']
}

pub open spec fn main_marker() -> Seq<char> {
    seq!['m', 'a', 'i', 'n', ':']
}

pub open spec fn sampling_marker() -> Seq<char> {
    seq!['s', 'a', 'm', 'p', 'l', 'i', 'n', 'g']
}

/// A log line of the inference binary.
pub open spec fn is_log_line(l: Seq<char>) -> bool {
    contains(l, llama_marker()) || contains(l, main_marker()) || contains(l, sampling_marker())
}

/// The lines that are neither log lines nor blank.
pub open spec fn response_lines(ls: Seq<Seq<char>>) -> Seq<Seq<char>>
    decreases ls.len(),
{
    if ls.len() == 0 {
        seq![]
    } else if is_log_line(ls.last()) || is_blank(ls.last()) {
        response_lines(ls.drop_last())
    } else {
        response_lines(ls.drop_last()).push(ls.last())
    }
}

/// The lines joined with one line feed between neighbours.
pub open spec fn join_lines(ls: Seq<Seq<char>>) -> Seq<char>
    decreases ls.len(),
{
    if ls.len() == 0 {
        seq![]
    } else if ls.len() == 1 {
        ls[0]
    } else {
        join_lines(ls.drop_last()) + seq!['\n'] + ls.last()
    }
}

pub open spec fn trim_start(s: Seq<char>) -> Seq<char>
    decreases s.len(),
{
    if s.len() > 0 && is_space_spec(s[0]) {
        trim_start(s.drop_first())
    } else {
        s
    }
}

pub open spec fn trim_end(s: Seq<char>) -> Seq<char>
    decreases s.len(),
{
    if s.len() > 0 && is_space_spec(s.last()) {
        trim_end(s.drop_last())
    } else {
        s
    }
}

/// `s` without leading and trailing whitespace, as `str::trim` gives it.
pub open spec fn trim(s: Seq<char>) -> Seq<char> {
    trim_end(trim_start(s))
}

/// The text used when nothing but log output was printed.
pub open spec fn no_response_text() -> Seq<char> {
    "Response generated by BitNet zkML system."@
}

/// The generated text in `raw`: its response lines joined and trimmed, or
/// `no_response_text()` where that leaves nothing.
pub open spec fn cleaned_output(raw: Seq<char>) -> Seq<char> {
    let t = trim(join_lines(response_lines(lines(raw))));
    if t.len() == 0 {
        no_response_text()
    } else {
        t
    }
}

fn contains_exec(l: &Vec<char>, pat: &Vec<char>) -> (r: bool)
    ensures
        r == contains(l@, pat@),
{
    let n = l.len();
    let m = pat.len();
    if m > n {
        return false;
    }
    let mut i: usize = 0;
    while i <= n - m
        invariant
            n == l@.len(),
            m == pat@.len(),
            m <= n,
            i <= n - m + 1,
            forall|a: int| 0 <= a < i ==> #[trigger] l@.subrange(a, a + m) != pat@,
        decreases n - m + 1 - i,
    {
        let mut j: usize = 0;
        while j < m && l[i + j] == pat[j]
            invariant
                n == l@.len(),
                m == pat@.len(),
                i + m <= n,
                j <= m,
                forall|k: int| 0 <= k < j ==> l@[i + k] == pat@[k],
            decreases m - j,
        {
            j = j + 1;
        }
        if j == m {
            proof {
                assert(l@.subrange(i as int, i + m) =~= pat@);
            }
            return true;
        }
        proof {
            assert(l@.subrange(i as int, i + m)[j as int] != pat@[j as int]);
        }
        i = i + 1;
    }
    false
}

fn is_blank_exec(l: &Vec<char>) -> (r: bool)
    ensures
        r == is_blank(l@),
{
    let mut k: usize = 0;
    while k < l.len()
        invariant
            k <= l@.len(),
            forall|a: int| 0 <= a < k ==> is_space_spec(#[trigger] l@[a]),
        decreases l@.len() - k,
    {
        if !is_space(l[k]) {
            return false;
        }
        k = k + 1;
    }
    true
}

fn is_log_line_exec(l: &Vec<char>) -> (r: bool)
    ensures
        r == is_log_line(l@),
{
    let a = vec!['l', 'l', 'a', 'm', 'a', '_'];
    let b = vec!['m', 'a', 'i', 'n', ':'];
    let c = vec!['s', 'a', 'm', 'p', 'l', 'i', 'n', 'g'];
    proof {
        assert(a@ =~= llama_marker());
        assert(b@ =~= main_marker());
        assert(c@ =~= sampling_marker());
    }
    contains_exec(l, &a) || contains_exec(l, &b) || contains_exec(l, &c)
}

/// Ends a line: drops a final carriage return and keeps the line where it
/// is a response line.
fn finish_line(cur: Vec<char>, kept: &mut Vec<Vec<char>>)
    ensures
        final(kept)@.map_values(|v: Vec<char>| v@) == old(kept)@.map_values(|v: Vec<char>| v@)
            + response_lines(seq![strip_cr(cur@)]),
{
    let mut line = cur;
    if line.len() > 0 && line[line.len() - 1] == '\r' {
        line.pop();
    }
    let ghost l = line@;
    proof {
        assert(l == strip_cr(cur@));
        assert(seq![l].drop_last() =~= Seq::<Seq<char>>::empty());
        assert(seq![l].last() == l);
        assert(response_lines(Seq::<Seq<char>>::empty()) == Seq::<Seq<char>>::empty());
    }
    if !is_log_line_exec(&line) && !is_blank_exec(&line) {
        proof {
            assert(response_lines(seq![l]) == response_lines(seq![l].drop_last()).push(l));
            assert(response_lines(seq![l]) =~= seq![l]);
        }
        kept.push(line);
        proof {
            assert(Seq::<Seq<char>>::empty().push(l) =~= seq![l]);
            assert(final(kept)@.map_values(|v: Vec<char>| v@) =~= old(kept)@.map_values(
                |v: Vec<char>| v@,
            ) + seq![l]);
        }
    } else {
        proof {
            assert(response_lines(seq![l]) == response_lines(seq![l].drop_last()));
            assert(response_lines(seq![l]) =~= Seq::<Seq<char>>::empty());
            assert(old(kept)@.map_values(|v: Vec<char>| v@) + Seq::<Seq<char>>::empty() =~= old(
                kept,
            )@.map_values(|v: Vec<char>| v@));
        }
    }
}

proof fn lemma_response_lines_concat(a: Seq<Seq<char>>, b: Seq<Seq<char>>)
    ensures
        response_lines(a + b) == response_lines(a) + response_lines(b),
    decreases b.len(),
{
    if b.len() == 0 {
        assert(a + b =~= a);
        assert(response_lines(a) + seq![] =~= response_lines(a));
    } else {
        assert((a + b).drop_last() =~= a + b.drop_last());
        lemma_response_lines_concat(a, b.drop_last());
        if !(is_log_line(b.last()) || is_blank(b.last())) {
            assert(response_lines(a) + response_lines(b.drop_last()).push(b.last()) =~= (
            response_lines(a) + response_lines(b.drop_last())).push(b.last()));
        }
    }
}

/// Keeps the text that the inference binary generated: its lines, less
/// those holding `llama_`, `main:` or `sampling` and the blank ones,
/// joined by line feeds and trimmed; a fixed notice where nothing is left.
pub fn clean_llama_output(raw_output: &str) -> (r: String)
    ensures
        r@ == cleaned_output(raw_output@),
{
    let cs = chars_of(raw_output);
    let ghost s = raw_output@;
    let mut kept: Vec<Vec<char>> = Vec::new();
    let mut cur: Vec<char> = Vec::new();
    let ghost mut done: Seq<Seq<char>> = seq![];
    let mut i: usize = 0;
    proof {
        assert(s.subrange(0, s.len() as int) =~= s);
        assert(done + lines_from(s, seq![]) =~= lines_from(s, seq![]));
        assert(cur@ =~= seq![]);
    }
    while i < cs.len()
        invariant
            cs@ == s,
            i <= s.len(),
            lines(s) == done + lines_from(s.subrange(i as int, s.len() as int), cur@),
            kept@.map_values(|v: Vec<char>| v@) == response_lines(done),
        decreases s.len() - i,
    {
        let c = cs[i];
        let ghost rest = s.subrange(i as int, s.len() as int);
        proof {
            assert(rest[0] == c);
            assert(rest.drop_first() =~= s.subrange(i as int + 1, s.len() as int));
        }
        if c == '\n' {
            let ghost l = strip_cr(cur@);
            let line = cur;
            cur = Vec::new();
            finish_line(line, &mut kept);
            proof {
                lemma_response_lines_concat(done, seq![l]);
                let nd = done + seq![l];
                assert(done + (seq![l] + lines_from(s.subrange(i as int + 1, s.len() as int), seq![]))
                    =~= nd + lines_from(s.subrange(i as int + 1, s.len() as int), seq![]));
                assert(cur@ =~= seq![]);
                done = nd;
            }
        } else {
            cur.push(c);
        }
        i = i + 1;
    }
    proof {
        assert(s.subrange(s.len() as int, s.len() as int) =~= seq![]);
    }
    if cur.len() > 0 {
        let ghost l = strip_cr(cur@);
        finish_line(cur, &mut kept);
        proof {
            lemma_response_lines_concat(done, seq![l]);
            done = done + seq![l];
        }
    } else {
        proof {
            assert(done + seq![] =~= done);
        }
    }
    let ghost ls = kept@.map_values(|v: Vec<char>| v@);
    assert(ls == response_lines(lines(s)));
    // join the kept lines
    let mut joined: Vec<char> = Vec::new();
    let mut k: usize = 0;
    while k < kept.len()
        invariant
            k <= kept@.len(),
            ls == kept@.map_values(|v: Vec<char>| v@),
            joined@ == join_lines(ls.subrange(0, k as int)),
        decreases kept@.len() - k,
    {
        let ghost pre = ls.subrange(0, k as int);
        proof {
            let p = ls.subrange(0, k as int + 1);
            assert(p.drop_last() =~= pre);
            assert(p.last() == kept@[k as int]@);
        }
        if k > 0 {
            joined.push('\n');
        }
        let ghost before = joined@;
        let line = &kept[k];
        let mut j: usize = 0;
        while j < line.len()
            invariant
                j <= line@.len(),
                joined@ == before + line@.subrange(0, j as int),
            decreases line@.len() - j,
        {
            joined.push(line[j]);
            proof {
                assert(line@.subrange(0, j as int + 1) =~= line@.subrange(0, j as int).push(line@[j as int]));
            }
            j = j + 1;
        }
        proof {
            assert(line@.subrange(0, line@.len() as int) =~= line@);
            if k == 0 {
                assert(before =~= seq![]);
                assert(joined@ =~= line@);
            } else {
                assert(joined@ =~= join_lines(pre) + seq!['\n'] + line@);
            }
        }
        k = k + 1;
    }
    proof {
        assert(ls.subrange(0, kept@.len() as int) =~= ls);
    }
    let t = trim_chars(&joined);
    if t.len() == 0 {
        let r = String::from_str("Response generated by BitNet zkML system.");
        r
    } else {
        string_of_chars(t.as_slice())
    }
}

fn trim_chars(s: &Vec<char>) -> (r: Vec<char>)
    ensures
        r@ == trim(s@),
{
    let n = s.len();
    let mut a: usize = 0;
    proof {
        assert(s@.subrange(0, n as int) =~= s@);
    }
    while a < n && is_space(s[a])
        invariant
            n == s@.len(),
            a <= n,
            trim_start(s@) == trim_start(s@.subrange(a as int, n as int)),
        decreases n - a,
    {
        proof {
            assert(s@.subrange(a as int, n as int).drop_first() =~= s@.subrange(a as int + 1, n as int));
        }
        a = a + 1;
    }
    let ghost st = s@.subrange(a as int, n as int);
    proof {
        assert(trim_start(st) == st);
    }
    let mut b: usize = n;
    proof {
        assert(st.subrange(0, (b - a) as int) =~= st);
    }
    while b > a && is_space(s[b - 1])
        invariant
            n == s@.len(),
            a <= b <= n,
            st == s@.subrange(a as int, n as int),
            trim_end(st) == trim_end(s@.subrange(a as int, b as int)),
        decreases b,
    {
        proof {
            assert(s@.subrange(a as int, b as int).drop_last() =~= s@.subrange(a as int, b as int - 1));
        }
        b = b - 1;
    }
    let mut out: Vec<char> = Vec::new();
    let mut k: usize = a;
    while k < b
        invariant
            a <= k <= b,
            b <= n,
            n == s@.len(),
            out@ == s@.subrange(a as int, k as int),
        decreases b - k,
    {
        out.push(s[k]);
        proof {
            assert(s@.subrange(a as int, k as int + 1) =~= s@.subrange(a as int, k as int).push(s@[k as int]));
        }
        k = k + 1;
    }
    out
}

} // verus!
