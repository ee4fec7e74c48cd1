//! Repository addresses of the form `owner/name`.
use vstd::prelude::*;

use crate::nix::ConfigError;

verus! {

/// `repository` is `owner`, one `/`, then `name`, with no other `/`.
pub open spec fn is_split_of(repository: Seq<char>, owner: Seq<char>, name: Seq<char>) -> bool {
    &&& repository == owner + seq!['/'] + name
    &&& !owner.contains('/')
    &&& !name.contains('/')
}

/// Splits `owner/name` at its only `/`; any other number of `/` is rejected
/// before any request is made.
pub fn split_repository(repository: &str) -> (r: Result<(String, String), ConfigError>)
    ensures
        match r {
            Ok((owner, name)) => is_split_of(repository@, owner@, name@),
            Err(e) => e == ConfigError::InvalidRepository && forall|o: Seq<char>, n: Seq<char>|
                !is_split_of(repository@, o, n),
        },
{
    let ghost s = repository@;
    let len = repository.unicode_len();
    let mut slash: usize = 0;
    while slash < len && repository.get_char(slash) != '/'
        invariant
            len == s.len(),
            s == repository@,
            slash <= len,
            forall|k: int| 0 <= k < slash ==> s[k] != '/',
        decreases len - slash,
    {
        slash = slash + 1;
    }
    if slash == len {
        proof {
            assert forall|o: Seq<char>, n: Seq<char>| !is_split_of(s, o, n) by {
                if is_split_of(s, o, n) {
                    assert((o + seq!['/'] + n)[o.len() as int] == '/');
                }
            }
        }
        return Err(ConfigError::InvalidRepository);
    }
    let mut j: usize = slash + 1;
    while j < len
        invariant
            len == s.len(),
            s == repository@,
            slash < j <= len,
            s[slash as int] == '/',
            forall|k: int| 0 <= k < slash ==> s[k] != '/',
            forall|k: int| slash < k < j ==> s[k] != '/',
        decreases len - j,
    {
        if repository.get_char(j) == '/' {
            proof {
                assert forall|o: Seq<char>, n: Seq<char>| !is_split_of(s, o, n) by {
                    if is_split_of(s, o, n) {
                        let t = o + seq!['/'] + n;
                        assert forall|k: int| 0 <= k < t.len() && k != o.len() implies t[k]
                            != '/' by {
                            if k < o.len() {
                                assert(t[k] == o[k]);
                            } else {
                                assert(t[k] == n[k - o.len() - 1]);
                            }
                        }
                    }
                }
            }
            return Err(ConfigError::InvalidRepository);
        }
        j = j + 1;
    }
    let owner = String::from_str(repository.substring_char(0, slash));
    let name = String::from_str(repository.substring_char(slash + 1, len));
    proof {
        assert(s =~= owner@ + seq!['/'] + name@);
        assert(!owner@.contains('/')) by {
            if owner@.contains('/') {
                let k = choose|k: int| 0 <= k < owner@.len() && owner@[k] == '/';
                assert(s[k] == '/');
            }
        }
        assert(!name@.contains('/')) by {
            if name@.contains('/') {
                let k = choose|k: int| 0 <= k < name@.len() && name@[k] == '/';
                assert(s[slash + 1 + k] == '/');
            }
        }
    }
    Ok((owner, name))
}

} // verus!
