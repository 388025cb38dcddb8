//! Reports of what is wrong with a program, each with the places it points at.
use crate::source::Span;
use vstd::prelude::*;

verus! {

/// One report: what is wrong, and where.
pub struct Error {
    /// The text of the report.
    pub msg: String,
    /// The places the report points at.
    pub srcs: Vec<Option<Span>>,
}

/// The reports a step of the compiler has to make.
pub struct Errors {
    pub errs: Vec<Error>,
}

impl Errors {
    /// No report.
    pub fn empty() -> (r: Errors)
        ensures
            r.errs@.len() == 0,
    {
        Errors { errs: Vec::new() }
    }

    /// The one report `msg`, pointing at `srcs`.
    pub fn from_msg_srcs(msg: String, srcs: Vec<Option<Span>>) -> (r: Errors)
        ensures
            r.errs@.len() == 1,
            r.errs@[0].msg == msg,
            r.errs@[0].srcs@ == srcs@,
    {
        let mut errs = Vec::new();
        errs.push(Error { msg, srcs });
        Errors { errs }
    }

    /// The one report `msg`, pointing at `src`.
    pub fn from_msg_src(msg: String, src: Option<Span>) -> (r: Errors)
        ensures
            r.errs@.len() == 1,
            r.errs@[0].msg == msg,
            r.errs@[0].srcs@ == seq![src],
    {
        let mut srcs = Vec::new();
        srcs.push(src);
        Self::from_msg_srcs(msg, srcs)
    }

    /// Whether there is no report.
    pub fn is_empty(&self) -> (r: bool)
        ensures
            r == (self.errs@.len() == 0),
    {
        self.errs.len() == 0
    }

    /// Adds the reports of `other` after those already made.
    pub fn append(&mut self, other: Errors)
        ensures
            final(self).errs@ == old(self).errs@ + other.errs@,
    {
        let mut o = other.errs;
        self.errs.append(&mut o);
    }

    /// Adds the reports of a failed step, and nothing for one that succeeded.
    pub fn eat_err(&mut self, res: Result<(), Errors>)
        ensures
            match res {
                Ok(_) => final(self).errs@ == old(self).errs@,
                Err(e) => final(self).errs@ == old(self).errs@ + e.errs@,
            },
    {
        match res {
            Ok(_) => {},
            Err(e) => self.append(e),
        }
    }

    /// Success where no report was made, and these reports otherwise.
    pub fn to_result(self) -> (r: Result<(), Errors>)
        ensures
            self.errs@.len() == 0 <==> r is Ok,
            r matches Err(e) ==> e.errs@ == self.errs@,
    {
        if self.errs.len() == 0 {
            Ok(())
        } else {
            Err(self)
        }
    }
}

} // verus!
