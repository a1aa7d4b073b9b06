//! Secure enclave: key records held inside a protected store, with an
//! operation log of everything the enclave was asked to do.

use vstd::prelude::*;

use crate::trusted::str_eq;
use crate::trusted::u64_to_string;
use crate::CoreError;

verus! {

/// What a key is for.
#[derive(Debug, Clone, Copy, PartialEq, Eq, Structural)]
pub enum KeyType {
    Encryption,
    Signing,
    Authentication,
    Derivation,
}

/// What the enclave was asked to do.
#[derive(Debug, Clone, Copy, PartialEq, Eq, Structural)]
pub enum OperationType {
    KeyGeneration,
    KeyImport,
    KeyExport,
    Encryption,
    Decryption,
    Signing,
    Verification,
    KeyDerivation,
}

/// One key held by the enclave.
#[derive(Debug)]
pub struct EnclaveKey {
    pub key_id: String,
    pub key_type: KeyType,
    pub created_at: u64,
    pub last_used: Option<u64>,
    pub metadata: Vec<(String, String)>,
}

/// `a` and `b` describe the same key: every field holds the same content.
pub open spec fn key_like(a: EnclaveKey, b: EnclaveKey) -> bool {
    a.key_id == b.key_id && a.key_type == b.key_type && a.created_at == b.created_at
        && a.last_used == b.last_used && a.metadata@ == b.metadata@
}

fn copy_metadata(v: &Vec<(String, String)>) -> (r: Vec<(String, String)>)
    ensures
        r@ =~= v@,
{
    let mut out: Vec<(String, String)> = Vec::new();
    let mut i: usize = 0;
    while i < v.len()
        invariant
            i <= v.len(),
            out@ =~= v@.take(i as int),
        decreases v.len() - i,
    {
        let pair = (v[i].0.clone(), v[i].1.clone());
        proof {
            assert(pair == v@[i as int]);
            assert(v@.take(i + 1) =~= v@.take(i as int).push(v@[i as int]));
        }
        out.push(pair);
        i += 1;
    }
    proof {
        assert(v@.take(i as int) =~= v@);
    }
    out
}

impl Clone for EnclaveKey {
    fn clone(&self) -> (r: Self)
        ensures
            key_like(r, *self),
    {
        EnclaveKey {
            key_id: self.key_id.clone(),
            key_type: self.key_type,
            created_at: self.created_at,
            last_used: self.last_used,
            metadata: copy_metadata(&self.metadata),
        }
    }
}

/// One logged enclave operation.
#[derive(Debug)]
pub struct EnclaveOperation {
    pub operation_id: String,
    pub operation_type: OperationType,
    pub key_id: String,
    pub timestamp: u64,
    pub success: bool,
    pub error_message: Option<String>,
}

impl Clone for EnclaveOperation {
    fn clone(&self) -> (r: Self)
        ensures
            r == *self,
    {
        EnclaveOperation {
            operation_id: self.operation_id.clone(),
            operation_type: self.operation_type,
            key_id: self.key_id.clone(),
            timestamp: self.timestamp,
            success: self.success,
            error_message: match &self.error_message {
                Some(e) => Some(e.clone()),
                None => None,
            },
        }
    }
}

/// Whether some key of `s` carries the id `id`.
pub open spec fn contains_key_id(s: Seq<EnclaveKey>, id: Seq<char>) -> bool {
    exists|i: int| 0 <= i < s.len() && s[i].key_id@ == id
}

/// The protected key store with its operation log.
#[derive(Debug)]
pub struct SecureEnclave {
    keys: Vec<EnclaveKey>,
    operations: Vec<EnclaveOperation>,
}

impl SecureEnclave {
    /// Key ids are unique.
    pub closed spec fn wf(self) -> bool {
        forall|i: int, j: int|
            0 <= i < j < self.keys@.len() ==> self.keys@[i].key_id@ != self.keys@[j].key_id@
    }

    /// The held keys, in insertion order.
    pub closed spec fn spec_keys(self) -> Seq<EnclaveKey> {
        self.keys@
    }

    /// The operation log, oldest first.
    pub closed spec fn spec_operations(self) -> Seq<EnclaveOperation> {
        self.operations@
    }

    pub fn new() -> (r: Self)
        ensures
            r.wf(),
            r.spec_keys() =~= Seq::<EnclaveKey>::empty(),
            r.spec_operations() =~= Seq::<EnclaveOperation>::empty(),
    {
        SecureEnclave { keys: Vec::new(), operations: Vec::new() }
    }

    fn find_index(&self, key_id: &str) -> (r: Option<usize>)
        ensures
            match r {
                Some(i) => i < self.spec_keys().len() && self.spec_keys()[i as int].key_id@
                    == key_id@,
                None => !contains_key_id(self.spec_keys(), key_id@),
            },
    {
        let mut i: usize = 0;
        while i < self.keys.len()
            invariant
                i <= self.keys.len(),
                forall|j: int| 0 <= j < i ==> self.keys@[j].key_id@ != key_id@,
            decreases self.keys.len() - i,
        {
            if str_eq(self.keys[i].key_id.as_str(), key_id) {
                return Some(i);
            }
            i += 1;
        }
        None
    }

    fn record_operation(
        &mut self,
        operation_type: OperationType,
        key_id: String,
        success: bool,
        error_message: Option<String>,
        now: u64,
    )
        requires
            old(self).wf(),
        ensures
            final(self).wf(),
            final(self).spec_keys() == old(self).spec_keys(),
            final(self).spec_operations().len() == old(self).spec_operations().len() + 1,
            final(self).spec_operations().take(old(self).spec_operations().len() as int) == old(self).spec_operations(),
            final(self).spec_operations().last().operation_type == operation_type,
            final(self).spec_operations().last().key_id == key_id,
            final(self).spec_operations().last().timestamp == now,
            final(self).spec_operations().last().success == success,
            final(self).spec_operations().last().error_message == error_message,
    {
        let draw: u32 = rand::random::<u32>();
        let num = u64_to_string(draw as u64);
        let operation = EnclaveOperation {
            operation_id: String::from_str("op_").concat(num.as_str()),
            operation_type,
            key_id,
            timestamp: now,
            success,
            error_message,
        };
        self.operations.push(operation);
        proof {
            assert(final(self).spec_operations().take(old(self).spec_operations().len() as int)
                =~= old(self).spec_operations());
        }
    }

    /// Generate a key inside the enclave: the key is stored under its id
    /// (replacing any key already there) and the generation is logged.
    pub fn generate_key(&mut self, key_id: String, key_type: KeyType, now: u64) -> (r: Result<
        EnclaveKey,
        CoreError,
    >)
        requires
            old(self).wf(),
        ensures
            final(self).wf(),
            r matches Ok(k) && k.key_id == key_id && k.key_type == key_type && k.created_at == now
                && k.last_used is None,
            contains_key_id(final(self).spec_keys(), key_id@),
            final(self).spec_operations().len() == old(self).spec_operations().len() + 1,
            final(self).spec_operations().last().operation_type == OperationType::KeyGeneration,
            final(self).spec_operations().last().success,
    {
        let key = EnclaveKey {
            key_id: key_id.clone(),
            key_type,
            created_at: now,
            last_used: None,
            metadata: Vec::new(),
        };
        let out = key.clone();
        match self.find_index(key_id.as_str()) {
            Some(i) => {
                self.keys.set(i, key);
                proof {
                    assert(self.spec_keys()[i as int].key_id@ == key_id@);
                }
            },
            None => {
                self.keys.push(key);
                proof {
                    assert(self.spec_keys()[self.spec_keys().len() - 1].key_id@ == key_id@);
                }
            },
        }
        self.record_operation(OperationType::KeyGeneration, key_id, true, None, now);
        Ok(out)
    }

    /// Import key material.  The stub accepts nineteen imports out of
    /// twenty; an accepted key is stored under its id and either outcome is
    /// logged.
    pub fn import_key(&mut self, key_id: String, key_type: KeyType, key_data: &[u8], now: u64) -> (r:
        Result<EnclaveKey, CoreError>)
        requires
            old(self).wf(),
        ensures
            final(self).wf(),
            final(self).spec_operations().len() == old(self).spec_operations().len() + 1,
            final(self).spec_operations().last().operation_type == OperationType::KeyImport,
            r matches Ok(k) ==> (k.key_id == key_id && k.key_type == key_type && contains_key_id(
                final(self).spec_keys(),
                key_id@,
            ) && final(self).spec_operations().last().success),
            r matches Err(e) ==> (e == CoreError::TransientRuntime && final(self).spec_keys()
                == old(self).spec_keys() && !final(self).spec_operations().last().success),
    {
        let draw: u32 = rand::random::<u32>();
        // Nineteen in twenty imports of the stub succeed.
        if draw >= 214_748_365 {
            let key = EnclaveKey {
                key_id: key_id.clone(),
                key_type,
                created_at: now,
                last_used: None,
                metadata: Vec::new(),
            };
            let out = key.clone();
            match self.find_index(key_id.as_str()) {
                Some(i) => {
                    self.keys.set(i, key);
                    proof {
                        assert(self.spec_keys()[i as int].key_id@ == key_id@);
                    }
                },
                None => {
                    self.keys.push(key);
                    proof {
                        assert(self.spec_keys()[self.spec_keys().len() - 1].key_id@ == key_id@);
                    }
                },
            }
            self.record_operation(OperationType::KeyImport, key_id, true, None, now);
            Ok(out)
        } else {
            self.record_operation(
                OperationType::KeyImport,
                key_id,
                false,
                Some(String::from_str("Key import failed - invalid key data")),
                now,
            );
            Err(CoreError::TransientRuntime)
        }
    }

    /// Every held key, in insertion order.
    pub fn get_all_keys(&self) -> (r: Vec<EnclaveKey>)
        ensures
            r@.len() == self.spec_keys().len(),
            forall|i: int| 0 <= i < r@.len() ==> key_like(#[trigger] r@[i], self.spec_keys()[i]),
    {
        let mut out: Vec<EnclaveKey> = Vec::new();
        let mut i: usize = 0;
        while i < self.keys.len()
            invariant
                i <= self.keys.len(),
                out@.len() == i,
                forall|j: int| 0 <= j < i ==> key_like(#[trigger] out@[j], self.keys@[j]),
            decreases self.keys.len() - i,
        {
            out.push(self.keys[i].clone());
            i += 1;
        }
        out
    }

    /// The key under one id, if held.
    pub fn get_key(&self, key_id: &str) -> (r: Option<EnclaveKey>)
        ensures
            match r {
                Some(k) => k.key_id@ == key_id@ && exists|i: int|
                    0 <= i < self.spec_keys().len() && key_like(k, self.spec_keys()[i]),
                None => !contains_key_id(self.spec_keys(), key_id@),
            },
    {
        match self.find_index(key_id) {
            Some(i) => Some(self.keys[i].clone()),
            None => None,
        }
    }

    /// The operation log, oldest first.
    pub fn get_operations(&self) -> (r: Vec<EnclaveOperation>)
        ensures
            r@ =~= self.spec_operations(),
    {
        let mut out: Vec<EnclaveOperation> = Vec::new();
        let mut i: usize = 0;
        while i < self.operations.len()
            invariant
                i <= self.operations.len(),
                out@ =~= self.operations@.take(i as int),
            decreases self.operations.len() - i,
        {
            out.push(self.operations[i].clone());
            proof {
                assert(self.operations@.take(i + 1) =~= self.operations@.take(i as int).push(
                    self.operations@[i as int],
                ));
            }
            i += 1;
        }
        proof {
            assert(self.operations@.take(i as int) =~= self.operations@);
        }
        out
    }
}

impl Default for SecureEnclave {
    fn default() -> (r: Self)
        ensures
            r.wf(),
            r.spec_keys() =~= Seq::<EnclaveKey>::empty(),
            r.spec_operations() =~= Seq::<EnclaveOperation>::empty(),
    {
        SecureEnclave::new()
    }
}

} // verus!
