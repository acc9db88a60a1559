//! The typed-character buffer and the exact-match trigger lookup.
use vstd::prelude::*;
use vstd::string::StrSliceExecFns;

use crate::text::{chars_of, clear_string, pop_char, push_char, string_from_range};
use crate::trigger_map::TriggerMap;

verus! {

/// The last `n` characters of `s` (all of `s` when it is shorter).
pub open spec fn last_n(s: Seq<char>, n: nat) -> Seq<char> {
    if s.len() > n {
        s.skip(s.len() - n)
    } else {
        s
    }
}

/// The buffer after typing `c` into `buf` under capacity `cap`.
pub open spec fn pushed(buf: Seq<char>, cap: nat, c: char) -> Seq<char> {
    last_n(buf.push(c), cap)
}

/// The buffer after typing each character of `s` in turn.
pub open spec fn pushed_all(buf: Seq<char>, cap: nat, s: Seq<char>) -> Seq<char>
    decreases s.len(),
{
    if s.len() == 0 {
        buf
    } else {
        pushed(pushed_all(buf, cap, s.drop_last()), cap, s.last())
    }
}

/// Tracks the most recently typed characters and detects when they exactly
/// equal a known trigger. Separator keys reset it via the caller; this type
/// only models the character buffer and the lookup.
pub struct Matcher {
    buffer: String,
    cap: usize,
}

impl Matcher {
    #[verifier::type_invariant]
    spec fn within_cap(self) -> bool {
        self.buffer@.len() <= self.cap
    }

    /// The characters currently held.
    pub closed spec fn buffer(self) -> Seq<char> {
        self.buffer@
    }

    /// The most characters that are held.
    pub closed spec fn capacity(self) -> nat {
        self.cap as nat
    }

    /// `cap` bounds the buffer length (memory guard). It only needs to be
    /// at least the longest trigger; matching is exact equality, so a larger
    /// cap never causes false matches.
    pub fn new(cap: usize) -> (r: Matcher)
        ensures
            r.buffer() == Seq::<char>::empty(),
            r.capacity() == cap,
    {
        Matcher { buffer: String::new(), cap }
    }

    /// Record one typed printable character: the buffer keeps the last
    /// `capacity` characters typed.
    pub fn push_char(&mut self, c: char)
        ensures
            final(self).capacity() == old(self).capacity(),
            final(self).buffer() == pushed(old(self).buffer(), old(self).capacity(), c),
    {
        proof {
            use_type_invariant(&*self);
        }
        let mut buf = String::new();
        std::mem::swap(&mut buf, &mut self.buffer);
        push_char(&mut buf, c);
        let count = buf.as_str().unicode_len();
        if count > self.cap {
            let skip = count - self.cap;
            let v = chars_of(buf.as_str());
            buf = string_from_range(&v, skip, v.len());
            assert(v@.subrange(skip as int, v@.len() as int) =~= v@.skip(skip as int));
        }
        self.buffer = buf;
    }

    /// Handle a Backspace keypress: drop the last character, if any.
    pub fn backspace(&mut self)
        ensures
            final(self).capacity() == old(self).capacity(),
            final(self).buffer() == (if old(self).buffer().len() > 0 {
                old(self).buffer().drop_last()
            } else {
                old(self).buffer()
            }),
    {
        proof {
            use_type_invariant(&*self);
        }
        let mut buf = String::new();
        std::mem::swap(&mut buf, &mut self.buffer);
        let _ = pop_char(&mut buf);
        self.buffer = buf;
    }

    /// Clear the buffer (called on separators and after an expansion).
    pub fn reset(&mut self)
        ensures
            final(self).capacity() == old(self).capacity(),
            final(self).buffer() == Seq::<char>::empty(),
    {
        let mut buf = String::new();
        std::mem::swap(&mut buf, &mut self.buffer);
        clear_string(&mut buf);
        self.buffer = buf;
    }

    /// If the current buffer exactly equals a known trigger, return that
    /// trigger; otherwise `None`.
    pub fn check(&self, map: &TriggerMap) -> (r: Option<String>)
        ensures
            match r {
                Some(t) => t@ == self.buffer() && map@.contains_key(t@),
                None => !map@.contains_key(self.buffer()),
            },
    {
        if map.contains_key(self.buffer.as_str()) {
            Some(self.buffer.clone())
        } else {
            None
        }
    }
}

/// Typing a sequence of characters into a buffer leaves exactly the last
/// `cap` characters of what the buffer held followed by what was typed.
pub proof fn lemma_typing_keeps_last(buf: Seq<char>, cap: nat, s: Seq<char>)
    requires
        buf.len() <= cap,
    ensures
        pushed_all(buf, cap, s) == last_n(buf + s, cap),
    decreases s.len(),
{
    if s.len() > 0 {
        let front = s.drop_last();
        let c = s.last();
        lemma_typing_keeps_last(buf, cap, front);
        let b = last_n(buf + front, cap);
        let whole = buf + s;
        assert(whole =~= (buf + front).push(c));
        if (buf + front).len() > cap {
            assert(b.push(c) =~= (buf + front).skip((buf + front).len() - cap).push(c));
            assert(last_n(b.push(c), cap) =~= whole.skip(whole.len() - cap));
        } else {
            assert(b.push(c) =~= whole);
        }
    }
}

/// Backspace undoes a typed character while the buffer is below its
/// capacity (once it is full, the character pushed out is gone).
pub proof fn lemma_backspace_undoes_push(buf: Seq<char>, cap: nat, c: char)
    requires
        buf.len() < cap,
    ensures
        pushed(buf, cap, c).len() > 0,
        pushed(buf, cap, c).drop_last() == buf,
{
    assert(buf.push(c).drop_last() =~= buf);
}

} // verus!
