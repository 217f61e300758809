//! The clipboard-swap read side and the normalization of automation
//! output. The swap observes the clipboard — snapshot of contents and
//! change counter, settle delay, second counter read — and concludes: an
//! unmoved counter means nothing was copied and the result is the empty
//! string, a moved counter means the fresh contents are the result; either
//! way the snapshot's contents are what belongs back on the clipboard.
//! The raw output of the external automation is normalized here as well: a
//! launch failure stays a launch failure, a run with a failing exit status
//! counts as an empty result, and a successful run yields its output with
//! the surrounding whitespace trimmed.

use vstd::prelude::*;
use crate::tokenize::push_char;

verus! {

/// A whitespace character, as trimmed from automation output: the Unicode
/// White_Space class, the one `str::trim` strips from both ends.
pub open spec fn is_blank_char(c: char) -> bool {
    c == ' ' || c == '\t' || c == '\n' || c == '\u{0B}' || c == '\u{0C}' || c == '\r'
        || c == '\u{85}' || c == '\u{A0}' || c == '\u{1680}' || c == '\u{2000}'
        || c == '\u{2001}' || c == '\u{2002}' || c == '\u{2003}' || c == '\u{2004}'
        || c == '\u{2005}' || c == '\u{2006}' || c == '\u{2007}' || c == '\u{2008}'
        || c == '\u{2009}' || c == '\u{200A}' || c == '\u{2028}' || c == '\u{2029}'
        || c == '\u{202F}' || c == '\u{205F}' || c == '\u{3000}'
}

/// `s` without its leading blanks.
pub open spec fn trim_front(s: Seq<char>) -> Seq<char>
    decreases s.len(),
{
    if s.len() > 0 && is_blank_char(s[0]) {
        trim_front(s.drop_first())
    } else {
        s
    }
}

/// `s` without its trailing blanks.
pub open spec fn trim_back(s: Seq<char>) -> Seq<char>
    decreases s.len(),
{
    if s.len() > 0 && is_blank_char(s.last()) {
        trim_back(s.drop_last())
    } else {
        s
    }
}

/// `s` without its leading and trailing blanks.
pub open spec fn trimmed(s: Seq<char>) -> Seq<char> {
    trim_back(trim_front(s))
}

proof fn lemma_trim_front_at(s: Seq<char>, lo: int)
    requires
        0 <= lo <= s.len(),
        forall|i: int| 0 <= i < lo ==> is_blank_char(s[i]),
        lo < s.len() ==> !is_blank_char(s[lo]),
    ensures
        trim_front(s) == s.subrange(lo, s.len() as int),
    decreases lo,
{
    if lo == 0 {
        assert(s.subrange(0, s.len() as int) =~= s);
    } else {
        lemma_trim_front_at(s.drop_first(), lo - 1);
        assert(s.drop_first().subrange(lo - 1, s.drop_first().len() as int) =~= s.subrange(
            lo,
            s.len() as int,
        ));
    }
}

proof fn lemma_trim_back_at(s: Seq<char>, hi: int)
    requires
        0 <= hi <= s.len(),
        forall|i: int| hi <= i < s.len() ==> is_blank_char(s[i]),
        0 < hi ==> !is_blank_char(s[hi - 1]),
    ensures
        trim_back(s) == s.subrange(0, hi),
    decreases s.len() - hi,
{
    if hi == s.len() {
        if s.len() > 0 && is_blank_char(s.last()) {
            assert(!is_blank_char(s[hi - 1]));
            assert(false);
        }
        assert(s.subrange(0, s.len() as int) =~= s);
    } else {
        assert(is_blank_char(s.last()));
        lemma_trim_back_at(s.drop_last(), hi);
        assert(s.drop_last().subrange(0, hi) =~= s.subrange(0, hi));
    }
}

fn blank(c: char) -> (r: bool)
    ensures
        r == is_blank_char(c),
{
    c == ' ' || c == '\t' || c == '\n' || c == '\u{0B}' || c == '\u{0C}' || c == '\r'
        || c == '\u{85}' || c == '\u{A0}' || c == '\u{1680}' || c == '\u{2000}'
        || c == '\u{2001}' || c == '\u{2002}' || c == '\u{2003}' || c == '\u{2004}'
        || c == '\u{2005}' || c == '\u{2006}' || c == '\u{2007}' || c == '\u{2008}'
        || c == '\u{2009}' || c == '\u{200A}' || c == '\u{2028}' || c == '\u{2029}'
        || c == '\u{202F}' || c == '\u{205F}' || c == '\u{3000}'
}

/// The automation output with its surrounding whitespace removed.
pub fn trim_whitespace(s: &str) -> (r: String)
    ensures
        r@ == trimmed(s@),
{
    let n: usize = s.unicode_len();
    let mut lo: usize = 0;
    while lo < n && blank(s.get_char(lo))
        invariant
            0 <= lo <= n,
            n == s@.len(),
            forall|i: int| 0 <= i < lo ==> is_blank_char(s@[i]),
        decreases n - lo,
    {
        lo = lo + 1;
    }
    let mut hi: usize = n;
    while hi > lo && blank(s.get_char(hi - 1))
        invariant
            lo <= hi <= n,
            n == s@.len(),
            forall|i: int| hi <= i < n ==> is_blank_char(s@[i]),
        decreases hi,
    {
        hi = hi - 1;
    }
    let mut out = String::new();
    let mut j: usize = lo;
    while j < hi
        invariant
            lo <= j <= hi <= n,
            n == s@.len(),
            out@ == s@.subrange(lo as int, j as int),
        decreases hi - j,
    {
        push_char(&mut out, s.get_char(j));
        proof {
            assert(s@.subrange(lo as int, j + 1) =~= s@.subrange(lo as int, j as int).push(
                s@[j as int],
            ));
        }
        j = j + 1;
    }
    proof {
        lemma_trim_front_at(s@, lo as int);
        let t = s@.subrange(lo as int, n as int);
        lemma_trim_back_at(t, hi - lo);
        assert(t.subrange(0, hi - lo) =~= s@.subrange(lo as int, hi as int));
    }
    out
}

/// What the clipboard held when the swap began: its contents and the value
/// of the monotonically increasing change counter.
#[derive(Clone, Debug)]
pub struct ClipboardSnapshot {
    pub contents: String,
    pub change_count: u64,
}

/// The conclusion of the swap's read side: the text the swap captured, and
/// what must be installed on the clipboard afterwards.
#[derive(Clone, Debug)]
pub struct SwapReadOutcome {
    pub captured: String,
    pub restore: String,
}

/// Concludes the swap's read side after the settle delay: if the change
/// counter did not advance, nothing was copied and the captured text is
/// empty — not absent; otherwise the post-delay contents are the captured
/// text. Either way the snapshot's contents are what goes back on the
/// clipboard, so the user's own clipboard is not clobbered.
pub fn conclude_clipboard_read(
    snapshot: &ClipboardSnapshot,
    count_now: u64,
    contents_now: &String,
) -> (r: SwapReadOutcome)
    ensures
        r.restore@ == snapshot.contents@,
        count_now == snapshot.change_count ==> r.captured@ == Seq::<char>::empty(),
        count_now != snapshot.change_count ==> r.captured@ == contents_now@,
{
    if count_now == snapshot.change_count {
        SwapReadOutcome { captured: String::new(), restore: snapshot.contents.clone() }
    } else {
        SwapReadOutcome {
            captured: contents_now.clone(),
            restore: snapshot.contents.clone(),
        }
    }
}

/// What the external automation invocation reported: its exit status and
/// its raw output, already decoded to text.
#[derive(Clone, Debug)]
pub struct AutomationOutput {
    pub exit_success: bool,
    pub stdout_text: String,
}

/// Normalizes an automation invocation's outcome at the technique
/// boundary: `None` — the mechanism could not be launched — stays absence;
/// a run with a failing exit status counts as an empty result; a
/// successful run yields its output trimmed of surrounding whitespace.
pub fn normalize_automation_output(outcome: Option<AutomationOutput>) -> (r: Option<String>)
    ensures
        outcome is None ==> r is None,
        outcome matches Some(o) ==> !o.exit_success ==> (r matches Some(t) && t@ == Seq::<
            char,
        >::empty()),
        outcome matches Some(o) ==> o.exit_success ==> (r matches Some(t) && t@ == trimmed(
            o.stdout_text@,
        )),
{
    match outcome {
        None => None,
        Some(o) => {
            if o.exit_success {
                Some(trim_whitespace(o.stdout_text.as_str()))
            } else {
                Some(String::new())
            }
        },
    }
}

} // verus!
