//! The keys that members of a group encrypt with.
use vstd::prelude::*;
use crate::error::Error;
use crate::ids::Did;

verus! {

/// A key of a member.
pub struct KeyEntry {
    pub did: Did,
    pub key: Vec<u8>,
}

/// The keys of a group, each after those that came before it.
pub struct Keystore {
    pub keys: Vec<KeyEntry>,
}

/// The key that a member gave last.
pub open spec fn latest_key(keys: Seq<KeyEntry>, did: Did) -> Option<Seq<u8>>
    decreases keys.len(),
{
    if keys.len() == 0 {
        None
    } else if keys.last().did == did {
        Some(keys.last().key@)
    } else {
        latest_key(keys.drop_last(), did)
    }
}

/// A copy of bytes.
pub fn copy_bytes(bytes: &Vec<u8>) -> (r: Vec<u8>)
    ensures
        r@ == bytes@,
{
    let mut r: Vec<u8> = Vec::new();
    r.extend_from_slice(bytes.as_slice());
    assert(r@ == bytes@);
    r
}

impl Keystore {
    pub fn new() -> (r: Keystore)
        ensures
            r.keys@.len() == 0,
    {
        Keystore { keys: Vec::new() }
    }

    /// Adds a key of a member.
    pub fn insert(&mut self, did: Did, key: Vec<u8>)
        ensures
            final(self).keys@ == old(self).keys@.push(KeyEntry { did, key }),
            latest_key(final(self).keys@, did) == Some(key@),
            forall|other: Did|
                other != did ==> #[trigger] latest_key(final(self).keys@, other) == latest_key(
                    old(self).keys@,
                    other,
                ),
    {
        self.keys.push(KeyEntry { did, key });
        assert(self.keys@.drop_last() == old(self).keys@);
    }

    /// The key that a member gave last.
    pub fn get_latest(&self, did: Did) -> (r: Result<&Vec<u8>, Error>)
        ensures
            match r {
                Ok(key) => latest_key(self.keys@, did) == Some(key@),
                Err(e) => latest_key(self.keys@, did) is None && e == Error::PublicKeyDoesntExist,
            },
    {
        let mut i: usize = self.keys.len();
        assert(self.keys@.take(i as int) == self.keys@);
        while i > 0
            invariant
                i <= self.keys@.len(),
                latest_key(self.keys@.take(i as int), did) == latest_key(self.keys@, did),
            decreases i,
        {
            assert(self.keys@.take(i as int).drop_last() == self.keys@.take(i - 1));
            assert(self.keys@.take(i as int).last() == self.keys@[i - 1]);
            i = i - 1;
            if self.keys[i].did == did {
                return Ok(&self.keys[i].key);
            }
        }
        Err(Error::PublicKeyDoesntExist)
    }

    /// Whether a member gave a key.
    pub fn exist(&self, did: Did) -> (r: bool)
        ensures
            r == (latest_key(self.keys@, did) is Some),
    {
        self.get_latest(did).is_ok()
    }
}

} // verus!
