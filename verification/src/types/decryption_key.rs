//! The decryption-key descriptor a protected tag instance can carry:
//! the storage side of the key association; which keys are active where
//! in a document is the assembler's state machine, not this type's.

use vstd::prelude::*;

verus! {

/// How associated content is encrypted; `NotEncrypted` is the dialect's
/// `NONE` method token.
#[derive(Debug, Clone, Copy, PartialEq, Eq, Hash, Structural)]
pub enum EncryptionMethod {
    NotEncrypted,
    Aes128,
    SampleAes,
}

/// One decryption-key descriptor: the method, and whatever of the URI,
/// initialization vector, and key-format metadata the line carried.
#[derive(Debug, Clone, PartialEq, Eq, Hash)]
pub struct DecryptionKey {
    pub method: EncryptionMethod,
    pub uri: Option<String>,
    pub iv: Option<Vec<u8>>,
    pub key_format: Option<String>,
}

impl DecryptionKey {
    /// Makes a descriptor with the given method and nothing else.
    pub fn new(method: EncryptionMethod) -> (r: DecryptionKey)
        ensures
            r.method == method,
            r.uri is None,
            r.iv is None,
            r.key_format is None,
    {
        DecryptionKey { method, uri: None, iv: None, key_format: None }
    }
}

} // verus!
