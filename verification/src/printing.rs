//! Values that can be written out in several forms: short, pretty and full.

use vstd::prelude::*;
use vstd::string::StringExecFns;

verus! {

broadcast use vstd::string::group_string_axioms;

/// A sink that collects the text written to it.
pub struct Formatter {
    buffer: String,
}

/// Writing failed.
#[derive(Debug, Clone, Copy, PartialEq, Eq)]
pub struct FormatError;

/// A marker that only this library makes, so that [`Printable::fmt_to_string`] is called
/// through the `str_*` methods only.
pub struct Private {
    _sealed: (),
}

impl Formatter {
    /// The text written so far.
    pub closed spec fn spec_text(self) -> Seq<char> {
        self.buffer@
    }

    /// A formatter to which nothing has been written.
    pub fn new() -> (f: Formatter)
        ensures
            f.spec_text() == Seq::<char>::empty(),
    {
        Formatter { buffer: String::new() }
    }

    /// Appends `s` to the text written so far.
    pub fn write_str(&mut self, s: &str) -> (r: Result<(), FormatError>)
        ensures
            final(self).spec_text() == old(self).spec_text() + s@,
            r is Ok,
    {
        self.buffer.append(s);
        Ok(())
    }

    /// The text written so far.
    pub fn into_string(self) -> (s: String)
        ensures
            s@ == self.spec_text(),
    {
        self.buffer
    }
}

/// A value with three written forms: short, for logs and overviews; pretty, with line
/// breaks and indentation; full, detailed enough to tell apart even similar values.
pub trait Printable {
    /// Writes the short form of the value to `f`.
    fn fmt_short(&self, f: &mut Formatter) -> Result<(), FormatError>;

    /// Writes the pretty form of the value to `f`.
    fn fmt_pretty(&self, f: &mut Formatter) -> Result<(), FormatError>;

    /// Writes the full form of the value to `f`.
    fn fmt_full(&self, f: &mut Formatter) -> Result<(), FormatError>;

    /// Calls `func` once on the value and a new formatter, and gives the text that it
    /// wrote. `func` must not fail: writing to a [`Formatter`] never fails, and a writer
    /// that reports a failure anyway is a bug of the value's type.
    fn fmt_to_string<F>(&self, func: F, _private: Private) -> (r: String)
        where
            F: FnOnce(&Self, &mut Formatter) -> Result<(), FormatError>,
        requires
            forall|f: &mut Formatter| #[trigger] call_requires(func, (self, f)),
            forall|f: &mut Formatter, w: Result<(), FormatError>|
                #[trigger] call_ensures(func, (self, f), w) ==> w is Ok,
        ensures
            exists|f: &mut Formatter, w: Result<(), FormatError>|
                #![trigger call_ensures(func, (self, f), w)]
                {
                    &&& mut_ref_current(f).spec_text() == Seq::<char>::empty()
                    &&& call_ensures(func, (self, f), w)
                    &&& w is Ok
                    &&& r@ == mut_ref_future(f).spec_text()
                },
    {
        let mut f = Formatter::new();
        let ghost start = f;
        let written = func(self, &mut f);
        proof {
            assert(exists|m: &mut Formatter|
                mut_ref_current(m) == start && mut_ref_future(m) == f
                    && call_ensures(func, (self, m), written));
        }
        f.into_string()
    }

    /// The short form of the value: the text that [`Printable::fmt_short`] writes to a new
    /// formatter.
    fn str_short(&self) -> (r: String)
        requires
            forall|f: &mut Formatter| #[trigger] call_requires(Self::fmt_short, (self, f)),
            forall|f: &mut Formatter, w: Result<(), FormatError>|
                #[trigger] call_ensures(Self::fmt_short, (self, f), w) ==> w is Ok,
        ensures
            exists|f: &mut Formatter, w: Result<(), FormatError>|
                #![trigger call_ensures(Self::fmt_short, (self, f), w)]
                {
                    &&& mut_ref_current(f).spec_text() == Seq::<char>::empty()
                    &&& call_ensures(Self::fmt_short, (self, f), w)
                    &&& w is Ok
                    &&& r@ == mut_ref_future(f).spec_text()
                },
    {
        self.fmt_to_string(Self::fmt_short, Private { _sealed: () })
    }

    /// The pretty form of the value: the text that [`Printable::fmt_pretty`] writes to a new
    /// formatter.
    fn str_pretty(&self) -> (r: String)
        requires
            forall|f: &mut Formatter| #[trigger] call_requires(Self::fmt_pretty, (self, f)),
            forall|f: &mut Formatter, w: Result<(), FormatError>|
                #[trigger] call_ensures(Self::fmt_pretty, (self, f), w) ==> w is Ok,
        ensures
            exists|f: &mut Formatter, w: Result<(), FormatError>|
                #![trigger call_ensures(Self::fmt_pretty, (self, f), w)]
                {
                    &&& mut_ref_current(f).spec_text() == Seq::<char>::empty()
                    &&& call_ensures(Self::fmt_pretty, (self, f), w)
                    &&& w is Ok
                    &&& r@ == mut_ref_future(f).spec_text()
                },
    {
        self.fmt_to_string(Self::fmt_pretty, Private { _sealed: () })
    }

    /// The full form of the value: the text that [`Printable::fmt_full`] writes to a new
    /// formatter.
    fn str_full(&self) -> (r: String)
        requires
            forall|f: &mut Formatter| #[trigger] call_requires(Self::fmt_full, (self, f)),
            forall|f: &mut Formatter, w: Result<(), FormatError>|
                #[trigger] call_ensures(Self::fmt_full, (self, f), w) ==> w is Ok,
        ensures
            exists|f: &mut Formatter, w: Result<(), FormatError>|
                #![trigger call_ensures(Self::fmt_full, (self, f), w)]
                {
                    &&& mut_ref_current(f).spec_text() == Seq::<char>::empty()
                    &&& call_ensures(Self::fmt_full, (self, f), w)
                    &&& w is Ok
                    &&& r@ == mut_ref_future(f).spec_text()
                },
    {
        self.fmt_to_string(Self::fmt_full, Private { _sealed: () })
    }
}

} // verus!
