//! String types, notably [`PStackStr`].

use crate::types::magic::Magic;
use vstd::prelude::*;
use vstd::slice::slice_subrange;
use vstd::string::StringSliceAdditionalSpecFns;
use vstd::utf8::*;

verus! {

/// `bytes` without its trailing NUL bytes.
pub open spec fn strip_nul(bytes: Seq<u8>) -> Seq<u8>
    decreases bytes.len(),
{
    if bytes.len() > 0 && bytes.last() == 0 {
        strip_nul(bytes.drop_last())
    } else {
        bytes
    }
}

/// Length of the longest prefix of `bytes` that is valid UTF-8.
pub open spec fn valid_up_to(bytes: Seq<u8>) -> int
    decreases bytes.len(),
{
    if bytes.len() == 0 || valid_utf8(bytes) {
        bytes.len() as int
    } else {
        valid_up_to(bytes.drop_last())
    }
}

/// What a buffer that holds `stored` shows as text: the trailing NUL bytes are
/// dropped, then the longest prefix that is valid UTF-8 is kept.
pub open spec fn shown(stored: Seq<u8>) -> Seq<u8> {
    let kept = strip_nul(stored);
    kept.take(valid_up_to(kept))
}

/// The first `capacity` bytes of `bytes`, or all of them where there are fewer.
pub open spec fn truncated(bytes: Seq<u8>, capacity: int) -> Seq<u8> {
    if bytes.len() > capacity {
        bytes.take(capacity)
    } else {
        bytes
    }
}

/// `core::str::from_utf8`: the text is handed out exactly when the bytes are
/// valid UTF-8, and it is then made of those very bytes.
#[verifier::external_body]
fn utf8_text(bytes: &[u8]) -> (text: Option<&str>)
    ensures
        text is Some <==> valid_utf8(bytes@),
        text matches Some(t) ==> t.spec_bytes() == bytes@,
{
    core::str::from_utf8(bytes).ok()
}

/// A padded string that is stored in place with a fixed capacity of `LEN` bytes.
pub struct PStackStr<const LEN: usize> {
    _magic: [u8; 4],
    inner: [u8; LEN],
    initial_len: usize,
}

impl<const LEN: usize> Magic<4> for PStackStr<LEN> {
    /// The byte 255, then `str`.
    const MAGIC: [u8; 4] = [0xff, 0x73, 0x74, 0x72];

    closed spec fn leading(&self) -> Seq<u8> {
        self._magic@
    }

    proof fn lemma_tag_is_marked() {
        assert(Self::MAGIC@[0] == 0xff);
    }

    fn header(&self) -> (bytes: [u8; 4]) {
        self._magic
    }
}

impl<const LEN: usize> View for PStackStr<LEN> {
    type V = Seq<u8>;

    /// The stored bytes: the buffer up to the stored length.
    closed spec fn view(&self) -> Seq<u8> {
        self.inner@.take(self.initial_len as int)
    }
}

impl<const LEN: usize> PStackStr<LEN> {
    /// The bytes of the tag.
    pub proof fn lemma_magic()
        ensures
            Self::MAGIC@ == seq![0xffu8, 0x73u8, 0x74u8, 0x72u8],
    {
    }

    #[verifier::type_invariant]
    spec fn well_formed(self) -> bool {
        &&& self.initial_len <= LEN
        &&& self._magic@ == Self::MAGIC@
        &&& forall|i: int| self.initial_len <= i < LEN ==> self.inner@[i] == 0
    }

    /// A string without a byte in it.
    pub fn new() -> (made: Self)
        ensures
            made@ == Seq::<u8>::empty(),
            made.leading() == Self::MAGIC@,
    {
        let made = Self { _magic: Self::MAGIC, initial_len: 0, inner: [0u8; LEN] };
        made
    }

    /// The stored length in bytes.
    pub fn len(&self) -> (n: usize)
        ensures
            n == self@.len(),
            n <= LEN,
    {
        proof {
            use_type_invariant(self);
        }
        self.initial_len
    }

    /// Stores `byte` behind the bytes that are there, if there is room for it,
    /// and says whether it was stored.
    pub fn push(&mut self, byte: u8) -> (stored: bool)
        ensures
            stored == (old(self)@.len() < LEN),
            stored ==> final(self)@ == old(self)@.push(byte),
            !stored ==> final(self)@ == old(self)@,
            final(self).leading() == old(self).leading(),
    {
        proof {
            use_type_invariant(&*self);
        }
        if self.initial_len >= LEN {
            return false;
        }
        let mut inner = self.inner;
        inner[self.initial_len] = byte;
        let grown = Self { _magic: self._magic, inner, initial_len: self.initial_len + 1 };
        *self = grown;
        true
    }

    /// The whole buffer: the stored bytes, then zero bytes up to the capacity.
    pub fn inner(&self) -> (buffer: &[u8; LEN])
        ensures
            buffer@.take(self@.len() as int) == self@,
            forall|i: int| self@.len() <= i < LEN ==> buffer@[i] == 0,
    {
        proof {
            use_type_invariant(self);
        }
        &self.inner
    }

    /// The number of bytes that the buffer can hold.
    pub fn capacity(&self) -> (n: usize)
        ensures
            n == LEN,
    {
        LEN
    }

    /// The stored bytes without their trailing NUL bytes.
    pub fn as_bytes(&self) -> (kept: &[u8])
        ensures
            kept@ == strip_nul(self@),
    {
        proof {
            use_type_invariant(self);
        }
        let mut end: usize = self.initial_len;
        assert(self@.take(end as int) =~= self@);
        while end > 0 && self.inner[end - 1] == 0
            invariant
                end <= self.initial_len <= LEN,
                strip_nul(self@) == strip_nul(self@.take(end as int)),
            decreases end,
        {
            assert(self@.take(end as int).drop_last() =~= self@.take(end - 1));
            end -= 1;
        }
        slice_subrange(self.inner.as_slice(), 0, end)
    }

    /// The stored text: the trailing NUL bytes are dropped, and of the rest the
    /// longest prefix that is valid UTF-8 is handed out.
    pub fn as_str(&self) -> (text: &str)
        ensures
            text.spec_bytes() == shown(self@),
            text@ == decode_utf8(shown(self@)),
    {
        let kept = self.as_bytes();
        let mut end: usize = kept.len();
        assert(kept@.take(end as int) =~= kept@);
        loop
            invariant
                end <= kept@.len(),
                kept@ == strip_nul(self@),
                valid_up_to(kept@) == valid_up_to(kept@.take(end as int)),
            decreases end,
        {
            let head = slice_subrange(kept, 0, end);
            match utf8_text(head) {
                Some(text) => {
                    proof {
                        encode_utf8_decode_utf8(text@);
                    }
                    return text;
                },
                None => {
                    assert(kept@.take(end as int).drop_last() =~= kept@.take(end - 1));
                    end -= 1;
                },
            }
        }
    }
}

impl<const LEN: usize> core::str::FromStr for PStackStr<LEN> {
    type Err = core::convert::Infallible;

    /// Copies the bytes of `s` up until `LEN`; what does not fit is cut off,
    /// wherever the cut falls. This never fails.
    fn from_str(s: &str) -> (result: Result<Self, core::convert::Infallible>)
        ensures
            result matches Ok(built) && built@ == truncated(s.spec_bytes(), LEN as int)
                && built.leading() == Self::MAGIC@,
    {
        let mut inner = [0u8; LEN];
        let str_bytes = s.as_bytes();
        let len = if str_bytes.len() > LEN { LEN } else { str_bytes.len() };
        let mut idx: usize = 0;
        while idx < len
            invariant
                idx <= len <= LEN,
                len <= str_bytes@.len(),
                forall|k: int| 0 <= k < idx ==> inner@[k] == str_bytes@[k],
                forall|k: int| idx <= k < LEN ==> inner@[k] == 0,
            decreases len - idx,
        {
            inner[idx] = str_bytes[idx];
            idx += 1;
        }
        let built = Self { _magic: Self::MAGIC, initial_len: len, inner };
        Ok(built)
    }
}

impl<const LEN: usize> core::ops::Deref for PStackStr<LEN> {
    type Target = str;

    /// The stored text, as [`PStackStr::as_str`] hands it out.
    fn deref(&self) -> (text: &str)
        ensures
            text.spec_bytes() == shown(self@),
    {
        self.as_str()
    }
}

impl<const LEN: usize> AsRef<str> for PStackStr<LEN> {
    /// The stored text, as [`PStackStr::as_str`] hands it out.
    fn as_ref(&self) -> (text: &str)
        ensures
            text.spec_bytes() == shown(self@),
    {
        self.as_str()
    }
}

/// A string that could be a borrowed str slice or an owned [`PStackStr`].
pub enum PStr<'a, const STACK_LEN: usize> {
    Fixed(&'a str),
    Stack(PStackStr<STACK_LEN>),
}

impl<'a, const STACK_LEN: usize> From<PStackStr<STACK_LEN>> for PStr<'a, STACK_LEN> {
    /// Takes the string over as it is.
    fn from(value: PStackStr<STACK_LEN>) -> (held: Self) {
        PStr::Stack(value)
    }
}

impl<'a, const STACK_LEN: usize> vstd::std_specs::convert::FromSpecImpl<PStackStr<STACK_LEN>> for PStr<'a, STACK_LEN> {
    open spec fn obeys_from_spec() -> bool {
        true
    }

    open spec fn from_spec(value: PStackStr<STACK_LEN>) -> Self {
        PStr::Stack(value)
    }
}

impl<'a, const STACK_LEN: usize> PStr<'a, STACK_LEN> {
    /// The bytes that [`PStr::as_str`] shows.
    pub open spec fn text(&self) -> Seq<u8> {
        match self {
            PStr::Fixed(s) => s.spec_bytes(),
            PStr::Stack(s) => shown(s@),
        }
    }

    /// Keeps the slice as it is.
    pub fn from_str(str: &'a str) -> (held: Self)
        ensures
            held == PStr::<'a, STACK_LEN>::Fixed(str),
    {
        PStr::Fixed(str)
    }

    /// The borrowed slice itself, or what the owned string shows.
    pub fn as_str(&self) -> (text: &str)
        ensures
            text.spec_bytes() == self.text(),
            text@ == decode_utf8(self.text()),
            self matches PStr::Fixed(s) ==> text@ == s@,
    {
        match self {
            PStr::Fixed(s) => {
                proof {
                    encode_utf8_decode_utf8(s@);
                }
                s
            },
            PStr::Stack(s) => s.as_str(),
        }
    }
}

impl<'a, const STACK_LEN: usize> AsRef<str> for PStr<'a, STACK_LEN> {
    /// The text, as [`PStr::as_str`] hands it out.
    fn as_ref(&self) -> (text: &str)
        ensures
            text.spec_bytes() == self.text(),
    {
        self.as_str()
    }
}

/// A string that fits its buffer and does not end in a NUL byte is shown as it
/// was given.
pub proof fn lemma_fitting_text_is_kept(text: Seq<char>, capacity: int)
    requires
        encode_utf8(text).len() <= capacity,
        encode_utf8(text).len() > 0 ==> encode_utf8(text).last() != 0,
    ensures
        shown(truncated(encode_utf8(text), capacity)) == encode_utf8(text),
        decode_utf8(shown(truncated(encode_utf8(text), capacity))) == text,
{
    broadcast use encode_utf8_valid_utf8, encode_utf8_decode_utf8;

    let bytes = encode_utf8(text);
    assert(bytes.take(bytes.len() as int) =~= bytes);
}

/// A string that does not fit is cut to the first `capacity` of its bytes, and
/// that many bytes are stored whatever they hold.
pub proof fn lemma_oversized_text_is_cut(bytes: Seq<u8>, capacity: int)
    requires
        0 <= capacity < bytes.len(),
    ensures
        truncated(bytes, capacity) == bytes.take(capacity),
        truncated(bytes, capacity).len() == capacity,
{
}

} // verus!
