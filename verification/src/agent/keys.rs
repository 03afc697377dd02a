//! API keys: stored per provider and profile in a pluggable backend, with
//! the provider's environment variable as a fallback.
use vstd::prelude::*;
use vstd::hash_map::StringHashMap;

use crate::agent::error::AgentError;
use crate::text::{chars_of, clone_string, push_str, string_from_chars, string_from_str};

verus! {

/// Where keys are stored. Implementations may fail; the manager passes a
/// failure on. Each implementation states, through the spec functions, which
/// answers it gives and what its changes do.
pub trait KeyBackend: Sized {
    /// Whether `r` is an answer the backend gives when asked for `key`.
    spec fn answers(&self, key: Seq<char>, r: Result<Option<String>, AgentError>) -> bool;

    /// Whether `after` and `r` are what storing `value` under `key` may leave
    /// and answer.
    spec fn stores(&self, after: Self, key: Seq<char>, value: Seq<char>, r: Result<(), AgentError>) -> bool;

    /// Whether `after` and `r` are what deleting `key` may leave and answer.
    spec fn deletes(&self, after: Self, key: Seq<char>, r: Result<(), AgentError>) -> bool;

    fn get(&self, key: &str) -> (r: Result<Option<String>, AgentError>)
        ensures
            self.answers(key@, r),
    ;

    fn set(&mut self, key: &str, value: &str) -> (r: Result<(), AgentError>)
        ensures
            old(self).stores(*final(self), key@, value@, r),
    ;

    fn delete(&mut self, key: &str) -> (r: Result<(), AgentError>)
        ensures
            old(self).deletes(*final(self), key@, r),
    ;
}

/// Keys kept in memory, by storage key.
pub struct InMemoryBackend {
    data: StringHashMap<String>,
}

impl InMemoryBackend {
    /// The stored keys, by storage key.
    pub closed spec fn stored(&self) -> Map<Seq<char>, Seq<char>> {
        Map::new(|k: Seq<char>| self.data@.contains_key(k), |k: Seq<char>| self.data@[k]@)
    }

    /// A backend holding nothing.
    pub fn new() -> (b: Self)
        ensures
            b.stored() == Map::<Seq<char>, Seq<char>>::empty(),
    {
        let b = InMemoryBackend { data: StringHashMap::new() };
        proof {
            assert(b.stored() =~= Map::<Seq<char>, Seq<char>>::empty());
        }
        b
    }

    /// The value stored under `key`.
    pub fn lookup(&self, key: &str) -> (r: Option<String>)
        ensures
            match r {
                Some(v) => self.stored().contains_key(key@) && self.stored()[key@] == v@,
                None => !self.stored().contains_key(key@),
            },
    {
        match self.data.get(key) {
            Some(v) => Some(clone_string(v)),
            None => None,
        }
    }

    /// Store `value` under `key`, replacing what was there.
    pub fn store(&mut self, key: &str, value: &str)
        ensures
            final(self).stored() == old(self).stored().insert(key@, value@),
    {
        self.data.insert(string_from_str(key), string_from_str(value));
        proof {
            assert(self.stored() =~= old(self).stored().insert(key@, value@));
        }
    }

    /// Forget what is stored under `key`.
    pub fn forget(&mut self, key: &str)
        ensures
            final(self).stored() == old(self).stored().remove(key@),
    {
        self.data.remove(key);
        proof {
            assert(self.stored() =~= old(self).stored().remove(key@));
        }
    }
}

impl KeyBackend for InMemoryBackend {
    open spec fn answers(&self, key: Seq<char>, r: Result<Option<String>, AgentError>) -> bool {
        r matches Ok(v) && match v {
            Some(s) => self.stored().contains_key(key) && self.stored()[key] == s@,
            None => !self.stored().contains_key(key),
        }
    }

    open spec fn stores(&self, after: Self, key: Seq<char>, value: Seq<char>, r: Result<(), AgentError>) -> bool {
        r is Ok && after.stored() == self.stored().insert(key, value)
    }

    open spec fn deletes(&self, after: Self, key: Seq<char>, r: Result<(), AgentError>) -> bool {
        r is Ok && after.stored() == self.stored().remove(key)
    }

    fn get(&self, key: &str) -> (r: Result<Option<String>, AgentError>) {
        Ok(self.lookup(key))
    }

    fn set(&mut self, key: &str, value: &str) -> (r: Result<(), AgentError>) {
        self.store(key, value);
        Ok(())
    }

    fn delete(&mut self, key: &str) -> (r: Result<(), AgentError>) {
        self.forget(key);
        Ok(())
    }
}

/// The variables a list of `(name, value)` pairs sets; a later pair for the
/// same name wins.
pub open spec fn env_map(vars: Seq<(String, String)>) -> Map<Seq<char>, Seq<char>>
    decreases vars.len(),
{
    if vars.len() == 0 {
        Map::empty()
    } else {
        env_map(vars.drop_last()).insert(vars.last().0@, vars.last().1@)
    }
}

/// Keys read from the process environment: a storage key is looked up in
/// the variable named after it ([`env_var_for_key`]). Storing and deleting
/// change nothing. The environment is the snapshot the caller read.
pub struct EnvVarBackend {
    vars: StringHashMap<String>,
}

impl EnvVarBackend {
    /// The environment's variables, by name.
    pub closed spec fn vars(&self) -> Map<Seq<char>, Seq<char>> {
        Map::new(|k: Seq<char>| self.vars@.contains_key(k), |k: Seq<char>| self.vars@[k]@)
    }

    /// A backend over the given environment variables.
    pub fn from_vars(vars: Vec<(String, String)>) -> (b: Self)
        ensures
            b.vars() == env_map(vars@),
    {
        let mut data: StringHashMap<String> = StringHashMap::new();
        let n = vars.len();
        let mut i: usize = 0;
        while i < n
            invariant
                n == vars@.len(),
                i <= n,
                Map::new(|k: Seq<char>| data@.contains_key(k), |k: Seq<char>| data@[k]@) == env_map(
                    vars@.take(i as int),
                ),
            decreases n - i,
        {
            let ghost before = Map::new(|k: Seq<char>| data@.contains_key(k), |k: Seq<char>| data@[k]@);
            data.insert(clone_string(&vars[i].0), clone_string(&vars[i].1));
            proof {
                assert(vars@.take(i + 1).drop_last() =~= vars@.take(i as int));
                assert(Map::new(|k: Seq<char>| data@.contains_key(k), |k: Seq<char>| data@[k]@) =~= before.insert(
                    vars@[i as int].0@,
                    vars@[i as int].1@,
                ));
            }
            i = i + 1;
        }
        proof {
            assert(vars@.take(n as int) =~= vars@);
        }
        EnvVarBackend { vars: data }
    }
}

impl KeyBackend for EnvVarBackend {
    open spec fn answers(&self, key: Seq<char>, r: Result<Option<String>, AgentError>) -> bool {
        r matches Ok(v) && match v {
            Some(s) => self.vars().contains_key(env_var_for_key(key)) && self.vars()[env_var_for_key(key)] == s@,
            None => !self.vars().contains_key(env_var_for_key(key)),
        }
    }

    open spec fn stores(&self, after: Self, key: Seq<char>, value: Seq<char>, r: Result<(), AgentError>) -> bool {
        r is Ok && after.vars() == self.vars()
    }

    open spec fn deletes(&self, after: Self, key: Seq<char>, r: Result<(), AgentError>) -> bool {
        r is Ok && after.vars() == self.vars()
    }

    fn get(&self, key: &str) -> (r: Result<Option<String>, AgentError>) {
        let name = env_var_for_storage_key(key);
        match self.vars.get(name.as_str()) {
            Some(v) => Ok(Some(clone_string(v))),
            None => Ok(None),
        }
    }

    fn set(&mut self, key: &str, value: &str) -> (r: Result<(), AgentError>) {
        Ok(())
    }

    fn delete(&mut self, key: &str) -> (r: Result<(), AgentError>) {
        Ok(())
    }
}

/// After a key is stored, looking it up gives it back; after it is deleted,
/// looking it up finds nothing; other keys are untouched.
pub proof fn law_in_memory_read_after_write(
    m: Map<Seq<char>, Seq<char>>,
    key: Seq<char>,
    value: Seq<char>,
    other: Seq<char>,
)
    requires
        other != key,
    ensures
        m.insert(key, value).contains_key(key) && m.insert(key, value)[key] == value,
        !m.insert(key, value).remove(key).contains_key(key),
        m.insert(key, value).contains_key(other) == m.contains_key(other),
        m.insert(key, value).contains_key(other) ==> m.insert(key, value)[other] == m[other],
        m.remove(key).contains_key(other) == m.contains_key(other),
{
}

/// The key a provider and profile are stored under: `provider:profile`.
pub open spec fn storage_key(provider: Seq<char>, profile: Seq<char>) -> Seq<char> {
    provider + seq![':'] + profile
}

/// The upper-case form of a text, as `str::to_uppercase` gives it (full
/// Unicode case mapping).
pub uninterp spec fn uppercase(s: Seq<char>) -> Seq<char>;

/// `str::to_uppercase`: the result is named `uppercase`, a function of the
/// text alone.
#[verifier::external_body]
fn to_uppercase(s: &str) -> (r: String)
    ensures
        r@ == uppercase(s@),
{
    s.to_uppercase()
}

/// `s` with every `-` replaced by `_`.
pub open spec fn dashes_to_underscores(s: Seq<char>) -> Seq<char> {
    Seq::new(s.len(), |i: int| if s[i] == '-' { '_' } else { s[i] })
}

/// The environment variable that holds a provider's key: the provider in
/// upper case, dashes turned to underscores, then `_API_KEY`.
pub open spec fn api_key_env_var(provider: Seq<char>) -> Seq<char> {
    dashes_to_underscores(uppercase(provider)) + "_API_KEY"@
}

/// The storage key of a provider and profile.
pub fn storage_key_of(provider: &str, profile: &str) -> (k: String)
    ensures
        k@ == storage_key(provider@, profile@),
{
    let mut k = string_from_str(provider);
    push_str(&mut k, ":");
    push_str(&mut k, profile);
    proof {
        reveal_strlit(":");
        assert(":"@ =~= seq![':']);
    }
    k
}

/// The environment variable a provider's key falls back to.
pub fn api_key_env_var_of(provider: &str) -> (v: String)
    ensures
        v@ == api_key_env_var(provider@),
{
    let upper = to_uppercase(provider);
    let cs = chars_of(upper.as_str());
    let n = cs.len();
    let mut out: Vec<char> = Vec::new();
    let mut i: usize = 0;
    while i < n
        invariant
            n == cs@.len(),
            i <= n,
            out@ == dashes_to_underscores(cs@).take(i as int),
        decreases n - i,
    {
        out.push(if cs[i] == '-' { '_' } else { cs[i] });
        i = i + 1;
        proof {
            assert(out@ =~= dashes_to_underscores(cs@).take(i as int));
        }
    }
    proof {
        assert(dashes_to_underscores(cs@).take(n as int) =~= dashes_to_underscores(cs@));
    }
    let mut v = string_from_chars(out.as_slice());
    push_str(&mut v, "_API_KEY");
    v
}

/// `s` with every `:` replaced by `_`.
pub open spec fn colons_to_underscores(s: Seq<char>) -> Seq<char> {
    Seq::new(s.len(), |i: int| if s[i] == ':' { '_' } else { s[i] })
}

/// The environment variable the environment backend reads a storage key
/// from: the key with `:` turned to `_`, then upper-cased.
pub open spec fn env_var_for_key(key: Seq<char>) -> Seq<char> {
    uppercase(colons_to_underscores(key))
}

/// The environment variable a storage key is read from.
pub fn env_var_for_storage_key(key: &str) -> (v: String)
    ensures
        v@ == env_var_for_key(key@),
{
    let cs = chars_of(key);
    let n = cs.len();
    let mut out: Vec<char> = Vec::new();
    let mut i: usize = 0;
    while i < n
        invariant
            n == cs@.len(),
            cs@ == key@,
            i <= n,
            out@ == colons_to_underscores(cs@).take(i as int),
        decreases n - i,
    {
        out.push(if cs[i] == ':' { '_' } else { cs[i] });
        i = i + 1;
        proof {
            assert(out@ =~= colons_to_underscores(cs@).take(i as int));
        }
    }
    proof {
        assert(colons_to_underscores(cs@).take(n as int) =~= colons_to_underscores(cs@));
    }
    let replaced = string_from_chars(out.as_slice());
    to_uppercase(replaced.as_str())
}

/// What a key lookup answers, given the backend's answer: a stored key
/// wins, a failure is passed on, and otherwise the environment's value.
pub open spec fn resolved(stored: Result<Option<String>, AgentError>, env_value: Option<String>) -> Result<
    Option<String>,
    AgentError,
> {
    match stored {
        Ok(Some(v)) => Ok(Some(v)),
        Ok(None) => Ok(env_value),
        Err(e) => Err(e),
    }
}

/// The answer to a key lookup: a stored key wins, a backend failure is
/// passed on, and otherwise the environment's value (if any) is used.
pub fn resolve_key(
    stored: Result<Option<String>, AgentError>,
    env_value: Option<String>,
) -> (r: Result<Option<String>, AgentError>)
    ensures
        r == resolved(stored, env_value),
{
    match stored {
        Ok(Some(v)) => Ok(Some(v)),
        Ok(None) => Ok(env_value),
        Err(e) => Err(e),
    }
}

/// API keys per provider and profile, held by a backend.
pub struct KeyManager<B: KeyBackend> {
    backend: B,
}

impl<B: KeyBackend> KeyManager<B> {
    /// A manager over the given backend.
    pub fn new(backend: B) -> (m: Self)
        ensures
            m.backend() == backend,
    {
        KeyManager { backend }
    }

    /// The backend.
    pub closed spec fn backend(&self) -> B {
        self.backend
    }

    /// The key for a provider and profile: the backend's entry under
    /// `provider:profile`, else `env_value`, the value the caller read from
    /// the provider's environment variable ([`api_key_env_var`]). What the
    /// backend answers is its own business; see [`resolve_key`] for what is
    /// made of each answer.
    pub fn get_key(&self, provider: &str, profile: &str, env_value: Option<String>) -> (r: Result<
        Option<String>,
        AgentError,
    >)
        ensures
            exists|stored: Result<Option<String>, AgentError>|
                self.backend().answers(storage_key(provider@, profile@), stored) && r == resolved(stored, env_value),
    {
        let key = storage_key_of(provider, profile);
        let stored = self.backend.get(key.as_str());
        let ghost answer = stored;
        let r = resolve_key(stored, env_value);
        proof {
            assert(self.backend().answers(storage_key(provider@, profile@), answer));
        }
        r
    }

    /// Store a key for a provider and profile under `provider:profile`.
    pub fn set_key(&mut self, provider: &str, profile: &str, value: &str) -> (r: Result<(), AgentError>)
        ensures
            old(self).backend().stores(final(self).backend(), storage_key(provider@, profile@), value@, r),
    {
        let key = storage_key_of(provider, profile);
        self.backend.set(key.as_str(), value)
    }

    /// Delete the key of a provider and profile.
    pub fn delete_key(&mut self, provider: &str, profile: &str) -> (r: Result<(), AgentError>)
        ensures
            old(self).backend().deletes(final(self).backend(), storage_key(provider@, profile@), r),
    {
        let key = storage_key_of(provider, profile);
        self.backend.delete(key.as_str())
    }

    /// Whether a key is available; a backend failure counts as no key.
    pub fn has_key(&self, provider: &str, profile: &str, env_value: Option<String>) -> (b: bool)
        ensures
            exists|stored: Result<Option<String>, AgentError>|
                self.backend().answers(storage_key(provider@, profile@), stored) && b == (resolved(stored, env_value) matches Ok(
                    Some(_),
                )),
    {
        match self.get_key(provider, profile, env_value) {
            Ok(Some(_)) => true,
            _ => false,
        }
    }
}

impl KeyManager<EnvVarBackend> {
    /// A manager that reads keys from the given environment variables.
    pub fn with_env(vars: Vec<(String, String)>) -> (m: Self)
        ensures
            m.backend().vars() == env_map(vars@),
    {
        KeyManager::new(EnvVarBackend::from_vars(vars))
    }
}

impl KeyManager<InMemoryBackend> {
    /// The keys an in-memory manager holds.
    pub closed spec fn stored(&self) -> Map<Seq<char>, Seq<char>> {
        self.backend.stored()
    }

    /// An in-memory manager's answer: the stored key, else `env_value`.
    pub fn get_stored_key(&self, provider: &str, profile: &str, env_value: Option<String>) -> (r: Option<String>)
        ensures
            ({
                let k = storage_key(provider@, profile@);
                match r {
                    Some(v) => if self.stored().contains_key(k) {
                        v@ == self.stored()[k]
                    } else {
                        env_value matches Some(e) && e@ == v@
                    },
                    None => !self.stored().contains_key(k) && env_value is None,
                }
            }),
    {
        let key = storage_key_of(provider, profile);
        match self.backend.lookup(key.as_str()) {
            Some(v) => Some(v),
            None => env_value,
        }
    }

    /// Store a key in an in-memory manager.
    pub fn store_key(&mut self, provider: &str, profile: &str, value: &str)
        ensures
            final(self).stored() == old(self).stored().insert(storage_key(provider@, profile@), value@),
    {
        let key = storage_key_of(provider, profile);
        self.backend.store(key.as_str(), value);
    }

    /// Delete a key from an in-memory manager.
    pub fn forget_key(&mut self, provider: &str, profile: &str)
        ensures
            final(self).stored() == old(self).stored().remove(storage_key(provider@, profile@)),
    {
        let key = storage_key_of(provider, profile);
        self.backend.forget(key.as_str());
    }
}

} // verus!
