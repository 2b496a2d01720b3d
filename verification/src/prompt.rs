//! Reading the operator's answers.
//!
//! One line of terminal input decides the fate of a candidate translation:
//! `y` accepts it, `n` asks for a manual replacement, `s` keeps the original
//! text, `q` ends the walk, and anything else is rejected so that the caller
//! prompts again.  The mapping ignores case and surrounding blanks.

use vstd::prelude::*;

verus! {

/// How one line of operator input at the decision prompt is understood.
#[derive(Clone, Copy, PartialEq, Eq, Structural, Debug)]
pub enum Reply {
    /// Use the machine-translated candidate.
    Accept,
    /// Ask the operator for a manual replacement line.
    Manual,
    /// Keep the original text.
    Skip,
    /// End the walk now.
    Quit,
    /// Not a recognized key: prompt again.
    Invalid,
}

/// The blank characters ignored around a typed answer.
pub open spec fn is_blank(c: char) -> bool {
    c == ' ' || c == '\t' || c == '\n' || c == '\r'
}

/// `s` with leading blanks removed.
pub open spec fn trim_front(s: Seq<char>) -> Seq<char>
    decreases s.len(),
{
    if s.len() > 0 && is_blank(s[0]) {
        trim_front(s.drop_first())
    } else {
        s
    }
}

/// `s` with trailing blanks removed.
pub open spec fn trim_back(s: Seq<char>) -> Seq<char>
    decreases s.len(),
{
    if s.len() > 0 && is_blank(s.last()) {
        trim_back(s.drop_last())
    } else {
        s
    }
}

/// `s` with blanks removed on both sides.
pub open spec fn trimmed(s: Seq<char>) -> Seq<char> {
    trim_back(trim_front(s))
}

/// The reply a line of input stands for: a single key among `y`, `n`, `s`,
/// `q` in either case, surrounded by any number of blanks; everything else
/// is `Invalid`.
pub open spec fn reply_of(line: Seq<char>) -> Reply {
    let t = trimmed(line);
    if t.len() == 1 {
        if t[0] == 'y' || t[0] == 'Y' {
            Reply::Accept
        } else if t[0] == 'n' || t[0] == 'N' {
            Reply::Manual
        } else if t[0] == 's' || t[0] == 'S' {
            Reply::Skip
        } else if t[0] == 'q' || t[0] == 'Q' {
            Reply::Quit
        } else {
            Reply::Invalid
        }
    } else {
        Reply::Invalid
    }
}

/// Whether a character is one of the blanks ignored around an answer.
fn is_blank_char(c: char) -> (r: bool)
    ensures
        r == is_blank(c),
{
    c == ' ' || c == '\t' || c == '\n' || c == '\r'
}

/// Classify one line of operator input at the decision prompt.
pub fn classify_reply(line: &String) -> (r: Reply)
    ensures
        r == reply_of(line@),
{
    let s = line.as_str();
    let len = s.unicode_len();
    let mut i: usize = 0;
    proof {
        assert(s@.subrange(0, len as int) =~= s@);
    }
    while i < len && is_blank_char(s.get_char(i))
        invariant
            i <= len,
            len == s@.len(),
            s@ == line@,
            trim_front(line@) == trim_front(s@.subrange(i as int, len as int)),
        decreases len - i,
    {
        proof {
            let tail = s@.subrange(i as int, len as int);
            assert(tail.drop_first() =~= s@.subrange(i as int + 1, len as int));
        }
        i = i + 1;
    }
    proof {
        assert(trim_front(line@) == s@.subrange(i as int, len as int));
    }
    let mut j: usize = len;
    while j > i && is_blank_char(s.get_char(j - 1))
        invariant
            i <= j <= len,
            len == s@.len(),
            s@ == line@,
            trim_front(line@) == s@.subrange(i as int, len as int),
            trimmed(line@) == trim_back(s@.subrange(i as int, j as int)),
        decreases j,
    {
        proof {
            let part = s@.subrange(i as int, j as int);
            assert(part.last() == s@[j - 1]);
            assert(part.drop_last() =~= s@.subrange(i as int, j as int - 1));
        }
        j = j - 1;
    }
    proof {
        assert(trimmed(line@) =~= s@.subrange(i as int, j as int));
    }
    if j - i == 1 {
        let c = s.get_char(i);
        if c == 'y' || c == 'Y' {
            Reply::Accept
        } else if c == 'n' || c == 'N' {
            Reply::Manual
        } else if c == 's' || c == 'S' {
            Reply::Skip
        } else if c == 'q' || c == 'Q' {
            Reply::Quit
        } else {
            Reply::Invalid
        }
    } else {
        Reply::Invalid
    }
}

/// `s` with one trailing line ending removed: a final `'\n'` goes, and a
/// `'\r'` right before it goes with it.  Nothing else changes, so blanks
/// inside the line survive.
pub open spec fn chomped(s: Seq<char>) -> Seq<char> {
    if s.len() > 0 && s.last() == '\n' {
        let t = s.drop_last();
        if t.len() > 0 && t.last() == '\r' {
            t.drop_last()
        } else {
            t
        }
    } else {
        s
    }
}

/// Remove the line ending a terminal read leaves on a manual replacement.
pub fn chomp_line(line: &String) -> (r: String)
    ensures
        r@ == chomped(line@),
{
    let s = line.as_str();
    let len = s.unicode_len();
    if len > 0 && s.get_char(len - 1) == '\n' {
        if len > 1 && s.get_char(len - 2) == '\r' {
            proof {
                assert(chomped(line@) =~= line@.subrange(0, len as int - 2));
            }
            s.substring_char(0, len - 2).to_owned()
        } else {
            proof {
                assert(chomped(line@) =~= line@.subrange(0, len as int - 1));
            }
            s.substring_char(0, len - 1).to_owned()
        }
    } else {
        line.clone()
    }
}

} // verus!
