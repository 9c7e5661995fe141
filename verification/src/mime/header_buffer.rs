//! Reassembly of folded headers: a header logical line begins at a
//! non-whitespace byte and continues through every following line whose
//! first byte is a space or horizontal tab.

use vstd::prelude::*;

verus! {

/// Drop a trailing CRLF so that a continuation can be appended
pub open spec fn chop_crlf(s: Seq<u8>) -> Seq<u8> {
    if s.len() >= 2 {
        s.take(s.len() - 2)
    } else {
        seq![]
    }
}

/// Does this raw line continue the previous header line?
pub open spec fn is_continuation(l: Seq<u8>) -> bool {
    l.len() > 0 && (l[0] == 32 || l[0] == 9)
}

/// The model of a header buffer
pub struct BufferModel {
    pub has_value: bool,
    pub line: Seq<u8>,
    pub length: int,
}

/// Concatenates header lines
pub struct HeaderBuffer {
    /// Is a logical line being collected?
    pub has_value: bool,
    /// The raw bytes consumed so far for the collected line
    pub length: usize,
    /// The unfolded bytes of the collected line
    pub line: Vec<u8>,
}

impl View for HeaderBuffer {
    type V = BufferModel;

    open spec fn view(&self) -> BufferModel {
        BufferModel { has_value: self.has_value, line: self.line@, length: self.length as int }
    }
}

impl HeaderBuffer {
    /// The unfolded line is never longer than the raw bytes it came from
    pub open spec fn wf(&self) -> bool {
        self.line@.len() <= self.length
    }

    /// An empty buffer
    pub fn new() -> (b: HeaderBuffer)
        ensures
            b.wf(),
            !b.has_value,
            b.length == 0,
            b.line@ == Seq::<u8>::empty(),
    {
        HeaderBuffer { has_value: false, length: 0, line: Vec::new() }
    }

    /// Add an incoming raw line and retrieve the previous complete logical
    /// line once a non-continuation line arrives. The returned count is the
    /// number of raw bytes that line consumed.
    pub fn next_line(&mut self, line: &[u8]) -> (r: Option<(Vec<u8>, usize)>)
        requires
            old(self).wf(),
            old(self).length + line@.len() <= usize::MAX,
        ensures
            final(self).wf(),
            !old(self).has_value ==> r is None && final(self).has_value && final(self).line@
                == line@ && final(self).length == line@.len(),
            old(self).has_value && is_continuation(line@) ==> r is None && final(self).has_value
                && final(self).line@ == chop_crlf(old(self).line@) + line@ && final(self).length
                == old(self).length + line@.len(),
            old(self).has_value && !is_continuation(line@) ==> (r matches Some(out) && out.0@
                == old(self).line@ && out.1 == old(self).length && final(self).has_value && final(self).line@ == line@ && final(self).length == line@.len()),
    {
        if !self.has_value {
            self.line = vstd::slice::slice_to_vec(line);
            self.length = line.len();
            self.has_value = true;
            None
        } else if line.len() > 0 && (line[0] == 32 || line[0] == 9) {
            let keep = if self.line.len() >= 2 {
                self.line.len() - 2
            } else {
                0
            };
            self.line.truncate(keep);
            assert(self.line@ =~= chop_crlf(old(self).line@));
            self.line.extend_from_slice(line);
            self.length = self.length + line.len();
            None
        } else {
            let mut out = vstd::slice::slice_to_vec(line);
            core::mem::swap(&mut out, &mut self.line);
            let length = self.length;
            self.length = line.len();
            Some((out, length))
        }
    }

    /// Get the remaining contents of the buffer and clear the buffer
    pub fn take(&mut self) -> (r: Option<(Vec<u8>, usize)>)
        requires
            old(self).wf(),
        ensures
            final(self).wf(),
            (r matches Some(out) ==> out.0@.len() <= out.1),
            old(self).has_value ==> (r matches Some(out) && out.0@ == old(self).line@ && out.1
                == old(self).length && !final(self).has_value && final(self).length == 0 && final(self).line@ == Seq::<u8>::empty()),
            !old(self).has_value ==> r is None && *final(self) == *old(self),
    {
        if self.has_value {
            self.has_value = false;
            let length = self.length;
            self.length = 0;
            let mut out: Vec<u8> = Vec::new();
            core::mem::swap(&mut out, &mut self.line);
            Some((out, length))
        } else {
            None
        }
    }
}

} // verus!
