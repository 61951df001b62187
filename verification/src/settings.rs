//! Server configuration: the protocol version to advertise and the bind
//! address, injected from outside rather than hardcoded.

use vstd::prelude::*;
use vstd::string::StrSliceExecFns;

verus! {

/// Configuration handed to the server at startup: a protocol version
/// byte and a bind address written as `ip:port`.
pub struct RakNetSettings {
    pub version: u8,
    pub address: String,
}

impl RakNetSettings {
    pub fn new(version: u8, address: String) -> (r: RakNetSettings)
        ensures
            r.version == version,
            r.address@ == address@,
    {
        RakNetSettings { version, address }
    }

    /// The configured protocol version byte.
    pub fn get_version(&self) -> (r: u8)
        ensures
            r == self.version,
    {
        self.version
    }

    /// The configured bind address, `ip:port`.
    pub fn get_address(&self) -> (r: String)
        ensures
            r@ == self.address@,
    {
        self.address.clone()
    }

    /// The address's IP part: the longest prefix holding no colon.
    pub fn get_ip(&self) -> (r: String)
        ensures
            r@.len() <= self.address@.len(),
            forall|j: int|
                0 <= j < r@.len() ==> r@[j] == self.address@[j] && self.address@[j] != ':',
            r@.len() < self.address@.len() ==> self.address@[r@.len() as int] == ':',
    {
        let n = self.address.as_str().unicode_len();
        let mut i: usize = 0;
        while i < n && self.address.as_str().get_char(i) != ':'
            invariant
                i <= n,
                n == self.address@.len(),
                forall|j: int| 0 <= j < i ==> self.address@[j] != ':',
            decreases n - i,
        {
            i += 1;
        }
        let part = self.address.as_str().substring_char(0, i);
        part.to_owned()
    }

    /// The address's port part: what stands between the first colon and
    /// the next colon or the end. The address must hold a colon.
    pub fn get_port(&self) -> (r: String)
        requires
            exists|k: int| 0 <= k < self.address@.len() && self.address@[k] == ':',
        ensures
            exists|k: int|
                {
                    &&& 0 <= k < self.address@.len()
                    &&& #[trigger] self.address@[k] == ':'
                    &&& (forall|j: int| 0 <= j < k ==> self.address@[j] != ':')
                    &&& k + 1 + r@.len() <= self.address@.len()
                    &&& (forall|j: int|
                        0 <= j < r@.len() ==> r@[j] == self.address@[k + 1 + j]
                            && self.address@[k + 1 + j] != ':')
                    &&& (k + 1 + r@.len() < self.address@.len() ==> self.address@[k + 1
                        + r@.len() as int] == ':')
                },
    {
        let n = self.address.as_str().unicode_len();
        let mut i: usize = 0;
        while self.address.as_str().get_char(i) != ':'
            invariant
                i < n,
                n == self.address@.len(),
                forall|j: int| 0 <= j < i ==> self.address@[j] != ':',
                exists|k: int| i <= k < n && self.address@[k] == ':',
            decreases n - i,
        {
            i += 1;
            proof {
                let k = choose|k: int|
                    (i - 1) <= k < self.address@.len() && self.address@[k] == ':';
                assert(i <= k < self.address@.len() && self.address@[k] == ':');
            }
        }
        let start = i + 1;
        let mut j: usize = start;
        while j < n && self.address.as_str().get_char(j) != ':'
            invariant
                start <= j <= n,
                n == self.address@.len(),
                forall|m: int| start <= m < j ==> self.address@[m] != ':',
            decreases n - j,
        {
            j += 1;
        }
        let part = self.address.as_str().substring_char(start, j);
        let out = part.to_owned();
        proof {
            let s = self.address@;
            let k = i as int;
            assert(out@ == s.subrange(start as int, j as int));
            assert(out@.len() == j - start);
            assert(0 <= k < s.len() && s[k] == ':');
            assert(forall|q: int| 0 <= q < k ==> s[q] != ':');
            assert(k + 1 + out@.len() == j);
            assert(forall|q: int|
                0 <= q < out@.len() ==> out@[q] == s[k + 1 + q] && s[k + 1 + q] != ':');
            assert(k + 1 + out@.len() < s.len() ==> s[k + 1 + out@.len() as int] == ':');
        }
        out
    }
}

} // verus!
