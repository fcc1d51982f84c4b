//! The bytes that the scanner reads: a finite run of bytes that ends either
//! cleanly or in a failure of whatever produced them.
use vstd::prelude::*;

verus! {

/// What a source yields next.
pub enum Feed {
    /// The next byte.
    Byte(u8),
    /// The clean end of the input.
    End,
    /// The failure that cut the input short, with its report.
    Fault(Seq<char>),
}

/// What comes next from the bytes `rest` that are still to be read, where the
/// input ends in `failure` if there is one: the first byte while there is
/// one, and after the last byte the failure or else the clean end.
pub open spec fn feed(rest: Seq<u8>, failure: Option<Seq<char>>) -> Feed {
    if rest.len() > 0 {
        Feed::Byte(rest[0])
    } else {
        match failure {
            Some(report) => Feed::Fault(report),
            None => Feed::End,
        }
    }
}

/// A source of bytes held in memory.
#[derive(Debug)]
pub struct Source {
    bytes: Vec<u8>,
    pos: usize,
    failure: Option<String>,
}

impl Source {
    #[verifier::type_invariant]
    spec fn inv(self) -> bool {
        self.pos <= self.bytes.len()
    }

    /// The bytes that have not been yielded yet.
    pub closed spec fn remaining(&self) -> Seq<u8> {
        if self.pos <= self.bytes.len() {
            self.bytes@.skip(self.pos as int)
        } else {
            Seq::empty()
        }
    }

    /// What is left of a source fits in memory.
    pub proof fn lemma_remaining_fits(&self)
        ensures
            self.remaining().len() <= usize::MAX,
    {
    }

    /// The report of the failure that the input ends in, if it ends in one.
    pub closed spec fn failure(&self) -> Option<Seq<char>> {
        match self.failure {
            Some(report) => Some(report@),
            None => None,
        }
    }

    /// How many bytes have been yielded.
    pub closed spec fn pulled(&self) -> nat {
        self.pos as nat
    }

    /// A source that yields `bytes` and then ends.
    pub fn new(bytes: Vec<u8>) -> (r: Self)
        ensures
            r.remaining() == bytes@,
            r.failure() is None,
            r.pulled() == 0,
    {
        Self { bytes, pos: 0, failure: None }
    }

    /// A source that yields `bytes` and then fails with `report`.
    pub fn failing(bytes: Vec<u8>, report: String) -> (r: Self)
        ensures
            r.remaining() == bytes@,
            r.failure() == Some(report@),
            r.pulled() == 0,
    {
        Self { bytes, pos: 0, failure: Some(report) }
    }

    /// Yields the next byte, the end of the input, or the failure that the
    /// input ends in. Only a byte moves the source on.
    pub fn next_byte(&mut self) -> (r: Result<Option<u8>, String>)
        ensures
            final(self).failure() == old(self).failure(),
            match feed(old(self).remaining(), old(self).failure()) {
                Feed::Byte(b) => r == Ok::<Option<u8>, String>(Some(b))
                    && final(self).remaining() == old(self).remaining().drop_first()
                    && final(self).pulled() == old(self).pulled() + 1,
                Feed::End => r == Ok::<Option<u8>, String>(None)
                    && final(self).remaining() == old(self).remaining()
                    && final(self).pulled() == old(self).pulled(),
                Feed::Fault(report) => r is Err && r->Err_0@ == report
                    && final(self).remaining() == old(self).remaining()
                    && final(self).pulled() == old(self).pulled(),
            },
    {
        proof {
            use_type_invariant(&*self);
        }
        if self.pos < self.bytes.len() {
            let b = self.bytes[self.pos];
            self.pos = self.pos + 1;
            assert(self.bytes@.skip(self.pos as int) == old(self).bytes@.skip(
                old(self).pos as int,
            ).drop_first());
            Ok(Some(b))
        } else {
            match &self.failure {
                Some(report) => Err(report.clone()),
                None => Ok(None),
            }
        }
    }
}

} // verus!
