//! Components and component readers.
//!
//! A component is one deliminator-separated text token of an encoded
//! document, either borrowed from the input buffer or owned.  A component
//! reader splits an input source into a queue of components, exactly once
//! (the split is idempotent), and hands them out front to back.

use vstd::prelude::*;

use std::collections::VecDeque;

use crate::error::Error;
use crate::split::pieces_of;
use crate::split::split_str;
use crate::split::strs_views;
use vstd::string::StrSliceExecFns;
use vstd::string::StringExecFns;
use vstd::string::StringSliceAdditionalSpecFns;
use vstd::utf8::decode_utf8;
use vstd::utf8::valid_utf8;

verus! {

/// Represents either an owned or a borrowed string (one value between
/// separators).
pub enum Component<'de> {
    /// Owned string.
    Owned(String),
    /// Borrowed string.
    Borrowed(&'de str),
}

impl<'de> View for Component<'de> {
    type V = Seq<char>;

    open spec fn view(&self) -> Seq<char> {
        match *self {
            Component::Owned(s) => s@,
            Component::Borrowed(s) => s@,
        }
    }
}

impl<'de> Component<'de> {
    /// Get the string as a reference.
    pub fn as_str(&self) -> (r: &str)
        ensures
            r@ == self@,
    {
        match self {
            Component::Owned(value) => value.as_str(),
            Component::Borrowed(value) => value,
        }
    }

    /// Get the string as a bytes reference.
    pub fn as_bytes(&self) -> (r: &[u8])
        ensures
            r@ == vstd::utf8::encode_utf8(self@),
    {
        self.as_str().as_bytes()
    }

    /// Get the string as a copy.
    pub fn to_owned(&self) -> (r: String)
        ensures
            r@ == self@,
    {
        match self {
            Component::Owned(value) => String::from_str(value.as_str()),
            Component::Borrowed(value) => String::from_str(value),
        }
    }
}

/// The views of a queue of components.
pub open spec fn comps_views(cs: Seq<Component>) -> Seq<Seq<char>> {
    Seq::new(cs.len(), |i: int| cs[i]@)
}

/// Relies on `core::str::from_utf8`: it returns the string slice over the
/// given bytes exactly when they are valid UTF-8 text.
#[verifier::external_body]
fn bytes_to_str(v: &[u8]) -> (r: Option<&str>)
    ensures
        match r {
            Some(s) => s.spec_bytes() == v@,
            None => !valid_utf8(v@),
        },
{
    core::str::from_utf8(v).ok()
}

/// Relies on `std::io::Read::read_to_string`: it drains the reader into one
/// owned string, failing on a read error or on stream contents that are not
/// UTF-8.  Nothing can be promised about the contents, which depend on the
/// reader alone.
#[verifier::external_body]
fn read_all_to_string<R: std::io::Read>(input: &mut R) -> (r: Result<String, Error>)
    ensures
        r matches Err(e) ==> e is Io,
{
    let mut buf = String::new();
    match input.read_to_string(&mut buf) {
        Ok(_) => Ok(buf),
        Err(e) => Err(Error::Io(format!("{}", e))),
    }
}

/// Trait that reads components (values within separators) from an input.
///
/// This trait is not intended to be implemented outside of this crate.
/// `queue` is what remains to be handed out: before materialization, what
/// the split of the source will yield; afterwards, what has not yet been
/// popped.  `load_ok` says whether materialization succeeds, and
/// `loaded` whether it has happened.
pub trait ComponentRead<'de>: Sized {
    /// The deliminator text.
    spec fn delim(&self) -> Seq<char>;

    /// Whether the component queue has been materialized.
    spec fn loaded(&self) -> bool;

    /// The components that remain to be handed out.
    spec fn queue(&self) -> Seq<Seq<char>>;

    /// Whether materialization succeeds.
    spec fn load_ok(&self) -> bool;

    /// Whether this reader's load failures are text-decoding failures
    /// (an in-memory source) rather than read failures (a stream).
    spec fn text_source(&self) -> bool;

    /// Return the deliminator used to separate values.
    fn deliminator(&self) -> (r: &'de str)
        ensures
            r@ == self.delim(),
    ;

    /// Whether the component queue has been materialized already.
    fn materialized(&self) -> (r: bool)
        ensures
            r == self.loaded(),
    ;

    /// Set the deliminator used to separate values.  The deliminator is
    /// mutable only before the input has been split.
    fn set_deliminator(&mut self, deliminator: &'de str)
        requires
            !old(self).loaded(),
        ensures
            !final(self).loaded(),
            final(self).delim() == deliminator@,
            final(self).load_ok() == old(self).load_ok(),
    ;

    /// Split the input into components if it has not been already.
    fn preload_components(&mut self) -> (r: Result<(), Error>)
        ensures
            final(self).delim() == old(self).delim(),
            final(self).queue() == old(self).queue(),
            final(self).load_ok() == old(self).load_ok(),
            old(self).loaded() ==> r is Ok && *final(self) == *old(self),
            r is Ok <==> old(self).load_ok(),
            r is Ok ==> final(self).loaded(),
            r matches Err(e) ==> !final(self).loaded() && !old(self).loaded() && (if old(
                self,
            ).text_source() {
                e is Utf8StringDecode
            } else {
                e is Io
            }),
    ;

    /// Return the next component.
    fn next_component(&mut self) -> (r: Result<Option<Component<'de>>, Error>)
        ensures
            final(self).delim() == old(self).delim(),
            final(self).load_ok() == old(self).load_ok(),
            r is Ok <==> old(self).load_ok(),
            old(self).loaded() ==> r is Ok,
            r is Ok ==> final(self).loaded(),
            r matches Err(e) ==> !final(self).loaded() && !old(self).loaded() && (if old(
                self,
            ).text_source() {
                e is Utf8StringDecode
            } else {
                e is Io
            }),
            r is Ok ==> ({
                let q0 = old(self).queue();
                &&& q0.len() > 0 ==> (r matches Ok(Some(c)) && c@ == q0[0]) && final(self).queue()
                    == q0.drop_first()
                &&& q0.len() == 0 ==> (r matches Ok(None)) && final(self).queue() == q0
            }),
    ;
}

/// Component reader for a slice held in memory.  Its components borrow from
/// the input buffer.  Fields are public so that its specification functions
/// can be stated over them.
pub struct SliceReader<'de> {
    /// The input buffer.
    pub input: &'de [u8],
    /// The deliminator.
    pub deliminator: &'de str,
    /// The component queue, once materialized.
    pub components: Option<VecDeque<Component<'de>>>,
}

impl<'de> SliceReader<'de> {
    /// Construct a component reader for a slice.
    pub fn new(input: &'de [u8]) -> (r: Self)
        ensures
            !r.loaded(),
            r.delim() == seq![':'],
            r.input@ == input@,
            r.load_ok() == valid_utf8(input@),
            r.queue() == pieces_of(decode_utf8(input@), seq![':']),
    {
        let r = SliceReader { input, deliminator: ":", components: None };
        proof {
            reveal_strlit(":");
            assert(r.deliminator@ =~= seq![':']);
        }
        r
    }
}

impl<'de> ComponentRead<'de> for SliceReader<'de> {
    open spec fn delim(&self) -> Seq<char> {
        self.deliminator@
    }

    open spec fn loaded(&self) -> bool {
        self.components is Some
    }

    open spec fn queue(&self) -> Seq<Seq<char>> {
        match self.components {
            Some(q) => comps_views(q@),
            None => pieces_of(decode_utf8(self.input@), self.deliminator@),
        }
    }

    open spec fn load_ok(&self) -> bool {
        self.components is Some || valid_utf8(self.input@)
    }

    open spec fn text_source(&self) -> bool {
        true
    }

    fn deliminator(&self) -> (r: &'de str) {
        self.deliminator
    }

    fn materialized(&self) -> (r: bool) {
        self.components.is_some()
    }

    fn set_deliminator(&mut self, deliminator: &'de str) {
        self.deliminator = deliminator;
    }

    fn preload_components(&mut self) -> (r: Result<(), Error>) {
        match &self.components {
            Some(_) => Ok(()),
            None => {
                match bytes_to_str(self.input) {
                    None => Err(Error::Utf8StringDecode),
                    Some(decoded_str) => {
                        let ghost chars = decoded_str@;
                        proof {
                            vstd::utf8::encode_utf8_decode_utf8(chars);
                            vstd::utf8::encode_utf8_valid_utf8(chars);
                            assert(decoded_str.spec_bytes() == vstd::utf8::encode_utf8(chars));
                            assert(decode_utf8(self.input@) == chars);
                            assert(valid_utf8(self.input@));
                        }
                        let mut components: VecDeque<Component<'de>> = VecDeque::new();
                        if !decoded_str.is_empty() {
                            let d = self.deliminator;
                            if d.is_empty() {
                                components.push_back(Component::Borrowed(decoded_str));
                                proof {
                                    assert(comps_views(components@) =~= pieces_of(chars, d@));
                                }
                            } else {
                                let parts = split_str(decoded_str, d);
                                let n = parts.len();
                                let mut i: usize = 0;
                                while i < n
                                    invariant
                                        i <= n,
                                        n == parts@.len(),
                                        comps_views(components@) =~= strs_views(
                                            parts@,
                                        ).subrange(0, i as int),
                                    decreases n - i,
                                {
                                    let ghost before = components@;
                                    let piece = parts[i];
                                    components.push_back(Component::Borrowed(piece));
                                    proof {
                                        let comp = Component::Borrowed(piece);
                                        assert(comps_views(before).len() == before.len());
                                        assert(before.len() == i);
                                        assert(components@ == before.push(comp));
                                        assert(components@.len() == i + 1);
                                        assert(comp@ == strs_views(parts@)[i as int]);
                                        let newv = comps_views(components@);
                                        let target = strs_views(parts@).subrange(
                                            0,
                                            i + 1 as int,
                                        );
                                        assert forall|k: int| 0 <= k < i + 1 implies newv[k]
                                            == target[k] by {
                                            if k < i {
                                                assert(newv[k] == comps_views(before)[k]);
                                            } else {
                                                assert(newv[k] == comp@);
                                            }
                                        }
                                        assert(newv =~= target);
                                    }
                                    i = i + 1;
                                }
                                proof {
                                    assert(strs_views(parts@).subrange(
                                        0,
                                        n as int,
                                    ) =~= strs_views(parts@));
                                    assert(comps_views(components@) =~= pieces_of(chars, d@));
                                }
                            }
                        } else {
                            proof {
                                assert(comps_views(components@) =~= pieces_of(
                                    chars,
                                    self.deliminator@,
                                ));
                            }
                        }
                        self.components = Some(components);
                        Ok(())
                    },
                }
            },
        }
    }

    fn next_component(&mut self) -> (r: Result<Option<Component<'de>>, Error>) {
        match self.preload_components() {
            Err(e) => Err(e),
            Ok(()) => {
                match &mut self.components {
                    Some(components) => {
                        let ghost q0 = components@;
                        let popped = components.pop_front();
                        proof {
                            if q0.len() > 0 {
                                assert(comps_views(components@) =~= comps_views(
                                    q0,
                                ).drop_first());
                            }
                        }
                        Ok(popped)
                    },
                    None => {
                        proof {
                            assert(false);
                        }
                        Err(Error::Syntax)
                    },
                }
            },
        }
    }
}

/// Component reader for a std io reader.  The stream is drained fully into
/// one owned buffer when the reader is constructed; materialization then
/// splits that buffer, so the components are owned copies.  Fields are
/// public so that its specification functions can be stated over them.
pub struct IoReader<'de> {
    /// What the stream yielded: its full contents, or the read error.
    pub source: Result<String, Error>,
    /// The deliminator.
    pub deliminator: &'de str,
    /// The component queue, once materialized.
    pub components: Option<VecDeque<Component<'de>>>,
}

impl<'de> IoReader<'de> {
    /// Construct a component reader from a reader, draining it fully.
    /// What the stream yields depends on the reader alone; decoding is then
    /// exact in it.
    pub fn new<R: std::io::Read>(input: R) -> (r: Self)
        ensures
            !r.loaded(),
            r.delim() == seq![':'],
            r.load_ok() == (r.source is Ok),
            r.source matches Err(e) ==> e is Io,
            r.source matches Ok(b) ==> r.queue() == pieces_of(b@, seq![':']),
    {
        let mut input = input;
        let source = read_all_to_string(&mut input);
        let r = IoReader { source, deliminator: ":", components: None };
        proof {
            reveal_strlit(":");
            assert(r.deliminator@ =~= seq![':']);
        }
        r
    }
}

impl<'de> ComponentRead<'de> for IoReader<'de> {
    open spec fn delim(&self) -> Seq<char> {
        self.deliminator@
    }

    open spec fn loaded(&self) -> bool {
        self.components is Some
    }

    open spec fn queue(&self) -> Seq<Seq<char>> {
        match self.components {
            Some(q) => comps_views(q@),
            None => match self.source {
                Ok(b) => pieces_of(b@, self.deliminator@),
                Err(_) => seq![],
            },
        }
    }

    open spec fn load_ok(&self) -> bool {
        self.components is Some || self.source is Ok
    }

    open spec fn text_source(&self) -> bool {
        false
    }

    fn deliminator(&self) -> (r: &'de str) {
        self.deliminator
    }

    fn materialized(&self) -> (r: bool) {
        self.components.is_some()
    }

    fn set_deliminator(&mut self, deliminator: &'de str) {
        self.deliminator = deliminator;
    }

    fn preload_components(&mut self) -> (r: Result<(), Error>) {
        match &self.components {
            Some(_) => Ok(()),
            None => {
                let buf = match &self.source {
                    Err(e) => {
                        let msg = match e {
                            Error::Io(msg) => String::from_str(msg.as_str()),
                            _ => String::new(),
                        };
                        return Err(Error::Io(msg));
                    },
                    Ok(buf) => buf,
                };
                let ghost chars = buf@;
                let mut components: VecDeque<Component<'de>> = VecDeque::new();
                if !buf.as_str().is_empty() {
                    let d = self.deliminator;
                    if d.is_empty() {
                        let whole = String::from_str(buf.as_str());
                        components.push_back(Component::Owned(whole));
                        proof {
                            assert(comps_views(components@) =~= pieces_of(chars, d@));
                        }
                    } else {
                        let parts = split_str(buf.as_str(), d);
                        let n = parts.len();
                        let mut i: usize = 0;
                        while i < n
                            invariant
                                i <= n,
                                n == parts@.len(),
                                comps_views(components@) =~= strs_views(parts@).subrange(
                                    0,
                                    i as int,
                                ),
                            decreases n - i,
                        {
                            let ghost before = components@;
                            let piece = String::from_str(parts[i]);
                            proof {
                                assert(piece@ == strs_views(parts@)[i as int]);
                            }
                            components.push_back(Component::Owned(piece));
                            proof {
                                assert(comps_views(before).len() == before.len());
                                assert(before.len() == i);
                                assert(components@.len() == i + 1);
                                let newv = comps_views(components@);
                                let target = strs_views(parts@).subrange(0, i + 1 as int);
                                assert forall|k: int| 0 <= k < i + 1 implies newv[k]
                                    == target[k] by {
                                    if k < i {
                                        assert(newv[k] == comps_views(before)[k]);
                                    } else {
                                        assert(newv[k] == components@[i as int]@);
                                    }
                                }
                                assert(newv =~= target);
                            }
                            i = i + 1;
                        }
                        proof {
                            assert(strs_views(parts@).subrange(0, n as int) =~= strs_views(
                                parts@,
                            ));
                            assert(comps_views(components@) =~= pieces_of(chars, d@));
                        }
                    }
                } else {
                    proof {
                        assert(comps_views(components@) =~= pieces_of(
                            chars,
                            self.deliminator@,
                        ));
                    }
                }
                self.components = Some(components);
                Ok(())
            },
        }
    }

    fn next_component(&mut self) -> (r: Result<Option<Component<'de>>, Error>) {
        match self.preload_components() {
            Err(e) => Err(e),
            Ok(()) => {
                match &mut self.components {
                    Some(components) => {
                        let ghost q0 = components@;
                        let popped = components.pop_front();
                        proof {
                            if q0.len() > 0 {
                                assert(comps_views(components@) =~= comps_views(
                                    q0,
                                ).drop_first());
                            }
                        }
                        Ok(popped)
                    },
                    None => {
                        proof {
                            assert(false);
                        }
                        Err(Error::Syntax)
                    },
                }
            },
        }
    }
}

} // verus!
