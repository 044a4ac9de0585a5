use vstd::prelude::*;

verus! {

/// Longest DAO name, in bytes.
pub const MAX_NAME_LEN: usize = 32;

/// A 32-byte identity: a participant, a recipient or a funding mint.
#[derive(Clone, Copy, Debug)]
pub struct Pubkey {
    pub bytes: [u8; 32],
}

impl View for Pubkey {
    type V = Seq<u8>;

    open spec fn view(&self) -> Seq<u8> {
        self.bytes@
    }
}

impl Pubkey {
    pub fn new_from_array(bytes: [u8; 32]) -> (r: Pubkey)
        ensures
            r@ == bytes@,
    {
        Pubkey { bytes }
    }

    pub fn to_bytes(&self) -> (r: [u8; 32])
        ensures
            r@ == self@,
    {
        self.bytes
    }

    /// Whether two identities are the same.
    pub fn same(&self, other: &Pubkey) -> (r: bool)
        ensures
            r == (self@ == other@),
    {
        let mut i: usize = 0;
        while i < 32
            invariant
                i <= 32,
                self@.len() == 32,
                other@.len() == 32,
                forall|j: int| 0 <= j < i ==> self@[j] == other@[j],
            decreases 32 - i,
        {
            if self.bytes[i] != other.bytes[i] {
                return false;
            }
            i = i + 1;
        }
        assert(self@ =~= other@);
        true
    }
}

/// A DAO name of at most 32 bytes, held zero-padded with its length.
#[derive(Clone, Copy, Debug)]
pub struct DaoName {
    pub bytes: [u8; 32],
    pub len: usize,
}

impl View for DaoName {
    type V = Seq<u8>;

    open spec fn view(&self) -> Seq<u8> {
        self.bytes@.subrange(0, self.len as int)
    }
}

impl DaoName {
    pub open spec fn wf(&self) -> bool {
        self.len <= MAX_NAME_LEN
    }

    /// The name holding the bytes of `s`, which fit.
    pub fn from_slice(s: &[u8]) -> (r: DaoName)
        requires
            s@.len() <= MAX_NAME_LEN,
        ensures
            r.wf(),
            r@ == s@,
    {
        let mut bytes = [0u8; 32];
        let n = s.len();
        let mut i: usize = 0;
        while i < n
            invariant
                n == s@.len(),
                n <= 32,
                i <= n,
                bytes@.len() == 32,
                forall|j: int| 0 <= j < i ==> bytes@[j] == s@[j],
            decreases n - i,
        {
            bytes[i] = s[i];
            i = i + 1;
        }
        let r = DaoName { bytes, len: n };
        assert(r@ =~= s@);
        r
    }

    /// The name's bytes.
    pub fn to_vec(&self) -> (r: Vec<u8>)
        requires
            self.wf(),
        ensures
            r@ == self@,
    {
        let mut r: Vec<u8> = Vec::new();
        let mut i: usize = 0;
        while i < self.len
            invariant
                self.len <= 32,
                self.bytes@.len() == 32,
                i <= self.len,
                r@ == self.bytes@.subrange(0, i as int),
            decreases self.len - i,
        {
            r.push(self.bytes[i]);
            i = i + 1;
            assert(r@ =~= self.bytes@.subrange(0, i as int));
        }
        r
    }

    /// Whether this name holds exactly the bytes of `s`.
    pub fn matches(&self, s: &[u8]) -> (r: bool)
        requires
            self.wf(),
        ensures
            r == (self@ == s@),
    {
        if self.len != s.len() {
            return false;
        }
        let mut i: usize = 0;
        while i < self.len
            invariant
                self.len <= 32,
                self.len == s@.len(),
                self.bytes@.len() == 32,
                i <= self.len,
                forall|j: int| 0 <= j < i ==> self.bytes@[j] == s@[j],
            decreases self.len - i,
        {
            if self.bytes[i] != s[i] {
                return false;
            }
            i = i + 1;
        }
        assert(self@ =~= s@);
        true
    }
}

} // verus!
