//! The system's start time and the week numbering derived from it.
use crate::codec::{
    encode_text, le_bytes, prefix_len, text_at, le_value, lemma_le_bytes_of_value, lemma_le_roundtrip, lemma_pow256_values, push_le, push_text,
    read_le, read_text,
};
use vstd::prelude::*;
use vstd::utf8::{decode_utf8, encode_utf8, valid_utf8};

verus! {

/// Seconds in one week.
pub const WEEK: u64 = 604_800;

/// The week, counted from `start_time`, in which the instant `now` falls.
pub open spec fn week_number(start_time: int, now: int) -> int {
    (now - start_time) / (WEEK as int)
}

/// The account that initialized the system and the instant the system started.
pub struct SystemStart {
    initializer: String,
    start_time: u64,
}

impl SystemStart {
    pub closed spec fn initializer_account(&self) -> Seq<char> {
        self.initializer@
    }

    pub closed spec fn spec_start_time(&self) -> u64 {
        self.start_time
    }

    /// A system initialized by `initializer`, started at time zero.
    pub fn new(initializer: String) -> (r: Self)
        ensures
            r.initializer_account() == initializer@,
            r.spec_start_time() == 0,
    {
        Self { initializer, start_time: 0 }
    }

    /// A system initialized by `initializer` that started at `start_time`.
    pub fn from_start_time(initializer: String, start_time: u64) -> (r: Self)
        ensures
            r.initializer_account() == initializer@,
            r.spec_start_time() == start_time,
    {
        Self { initializer, start_time }
    }

    /// The initializer.
    pub fn initializer(&self) -> (r: &String)
        ensures
            r@ == self.initializer_account(),
    {
        &self.initializer
    }

    /// Whether `caller` is the initializer.
    pub fn only_initializer(&self, caller: &String) -> (r: bool)
        ensures
            r == (caller@ == self.initializer_account()),
    {
        *caller == self.initializer
    }

    /// The start time.
    pub fn start_time(&self) -> (r: u64)
        ensures
            r == self.spec_start_time(),
    {
        self.start_time
    }

    /// The week in which `current_time` falls, counted from the start time.
    pub fn get_week(&self, current_time: u64) -> (r: u64)
        requires
            current_time >= self.spec_start_time(),
        ensures
            r == week_number(self.spec_start_time() as int, current_time as int),
    {
        (current_time - self.start_time) / WEEK
    }

    /// The Borsh encoding: the initializer as text, then the start time as a `u64`.
    pub open spec fn spec_to_bytes(&self) -> Seq<u8> {
        encode_text(self.initializer_account()) + le_bytes(self.spec_start_time() as nat, 8)
    }

    /// Encodes this value in Borsh layout.
    pub fn to_bytes(&self) -> (r: Vec<u8>)
        requires
            encode_utf8(self.initializer_account()).len() <= u32::MAX,
        ensures
            r@ == self.spec_to_bytes(),
    {
        let mut out: Vec<u8> = Vec::new();
        push_text(&mut out, &self.initializer);
        proof {
            lemma_pow256_values();
        }
        push_le(&mut out, self.start_time as u128, 8);
        assert(out@ =~= self.spec_to_bytes());
        out
    }

    /// Decodes a value in Borsh layout. Whatever it returns encodes to the
    /// input, and every encoding of a value decodes to that value.
    pub fn from_bytes(bytes: &[u8]) -> (r: Option<Self>)
        ensures
            r matches Some(v) ==> v.spec_to_bytes() == bytes@,
            forall|i: Seq<char>, t: u64|
                #![trigger encode_text(i), le_bytes(t as nat, 8)]
                bytes@ == encode_text(i) + le_bytes(t as nat, 8) && encode_utf8(i).len() <= u32::MAX
                    ==> (r matches Some(v) && v.initializer_account() == i && v.spec_start_time() == t),
    {
        let ghost all = bytes@;
        proof {
            lemma_pow256_values();
        }
        match read_text(bytes, 0) {
            Some((initializer, next)) => {
                if bytes.len() - next != 8 {
                    proof {
                        assert forall|i: Seq<char>, t: u64|
                            #![trigger encode_text(i), le_bytes(t as nat, 8)]
                            bytes@ == encode_text(i) + le_bytes(t as nat, 8) && encode_utf8(i).len()
                                <= u32::MAX implies false by {
                            Self::lemma_decode_prefix(bytes@, i, t as nat, next as int, initializer@);
                        }
                    }
                    return None;
                }
                let t = read_le(bytes, next, 8);
                proof {
                    lemma_le_value_fits_u64(bytes@.subrange(next as int, next + 8));
                }
                let v = Self { initializer, start_time: t as u64 };
                proof {
                    let b = bytes@.subrange(4, next as int);
                    vstd::utf8::decode_utf8_encode_utf8(b);
                    lemma_le_bytes_of_value(bytes@.subrange(0, 4));
                    lemma_le_bytes_of_value(bytes@.subrange(next as int, next + 8));
                    assert(v.spec_to_bytes() =~= bytes@);
                    assert forall|i: Seq<char>, t2: u64|
                        #![trigger encode_text(i), le_bytes(t2 as nat, 8)]
                        bytes@ == encode_text(i) + le_bytes(t2 as nat, 8) && encode_utf8(i).len()
                            <= u32::MAX implies (v.initializer_account() == i && v.spec_start_time()
                        == t2) by {
                        Self::lemma_decode_prefix(bytes@, i, t2 as nat, next as int, v.initializer@);
                        lemma_le_roundtrip(t2 as nat, 8);
                        assert(bytes@.subrange(next as int, next + 8) =~= le_bytes(t2 as nat, 8));
                    }
                }
                Some(v)
            },
            None => {
                proof {
                    assert forall|i: Seq<char>, t: u64|
                        #![trigger encode_text(i), le_bytes(t as nat, 8)]
                        bytes@ == encode_text(i) + le_bytes(t as nat, 8) && encode_utf8(i).len()
                            <= u32::MAX implies false by {
                        let u = encode_utf8(i);
                        lemma_le_roundtrip(u.len(), 4);
                        assert(bytes@.subrange(0, 4) =~= le_bytes(u.len(), 4));
                        assert(bytes@.subrange(4, 4 + u.len() as int) =~= u);
                        vstd::utf8::encode_utf8_valid_utf8(i);
                    }
                }
                None
            },
        }
    }

    /// Where the input is the encoding of (`i`, `t`), the text read at its
    /// start is `i` and ends where the 8 bytes of `t` begin.
    proof fn lemma_decode_prefix(bytes: Seq<u8>, i: Seq<char>, t: nat, next: int, s: Seq<char>)
        requires
            bytes == encode_text(i) + le_bytes(t, 8),
            encode_utf8(i).len() <= u32::MAX,
            t < 0x1_0000_0000_0000_0000,
            text_at(bytes, 0),
            next == 4 + prefix_len(bytes, 0),
            s == decode_utf8(bytes.subrange(4, next)),
        ensures
            s == i,
            bytes.len() - next == 8,
    {
        lemma_pow256_values();
        let u = encode_utf8(i);
        lemma_le_roundtrip(u.len(), 4);
        lemma_le_roundtrip(t, 8);
        assert(bytes.subrange(0, 4) =~= le_bytes(u.len(), 4));
        assert(next == 4 + u.len());
        assert(bytes.subrange(4, next) =~= u);
        vstd::utf8::encode_utf8_decode_utf8(i);
    }
}

/// A value read from 8 bytes fits in a `u64`.
proof fn lemma_le_value_fits_u64(b: Seq<u8>)
    requires
        b.len() == 8,
    ensures
        le_value(b) <= u64::MAX,
{
    crate::codec::lemma_le_value_bound(b);
    lemma_pow256_values();
}

/// Anything that knows the system's start time.
pub trait IBabelCore {
    fn start_time(&self) -> u64;
}

/// The core contract as the week numbering sees it: its start time.
pub struct BabelCore {
    start_time: u64,
}

impl BabelCore {
    pub closed spec fn spec_start_time(&self) -> u64 {
        self.start_time
    }

    pub fn new(start_time: u64) -> (r: Self)
        ensures
            r.spec_start_time() == start_time,
    {
        Self { start_time }
    }
}

impl IBabelCore for BabelCore {
    /// The start time the core contract was made with.
    fn start_time(&self) -> (r: u64)
        ensures
            r == self.spec_start_time(),
    {
        self.start_time
    }
}

} // verus!
