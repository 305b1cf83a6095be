use crate::derivation::blake2b_512;
use crate::derivation::blake2b_512_digest;
use crate::derivation::blake2s_256;
use crate::derivation::blake2s_256_digest;
use crate::derivation::sha2_256;
use crate::derivation::sha2_256_digest;
use crate::derivation::sha2_512;
use crate::derivation::sha2_512_digest;
use crate::derivation::sha3_256;
use crate::derivation::sha3_256_digest;
use crate::derivation::sha3_512;
use crate::derivation::sha3_512_digest;
use crate::error::outcome;
use crate::error::Error;
use crate::error::Failure;
use crate::prefix::code_len;
use crate::prefix::DerivationCode;
use crate::prefix::Material;
use crate::prefix::SelfAddressingPrefix;
use crate::util::base64::is_base64_text;
use vstd::prelude::*;
use vstd::string::StringExecFns;

verus! {

/// The digest algorithms by which a self-addressing prefix can be derived.
#[allow(non_camel_case_types)]
#[derive(Clone, Copy, Debug, PartialEq, Eq, Structural)]
pub enum SelfAddressing {
    Blake3_256,
    Blake2B256,
    Blake2S256,
    SHA3_256,
    SHA2_256,
    Blake3_512,
    SHA3_512,
    Blake2B512,
    SHA2_512,
}

impl DerivationCode for SelfAddressing {
    open spec fn code(self) -> Seq<char> {
        match self {
            SelfAddressing::Blake3_256 => seq!['E'],
            SelfAddressing::Blake2B256 => seq!['F'],
            SelfAddressing::Blake2S256 => seq!['G'],
            SelfAddressing::SHA3_256 => seq!['H'],
            SelfAddressing::SHA2_256 => seq!['I'],
            SelfAddressing::Blake3_512 => seq!['0', 'D'],
            SelfAddressing::SHA3_512 => seq!['0', 'E'],
            SelfAddressing::Blake2B512 => seq!['0', 'F'],
            SelfAddressing::SHA2_512 => seq!['0', 'G'],
        }
    }

    open spec fn of_code(code: Seq<char>) -> Option<SelfAddressing> {
        if code.len() == 1 {
            if code[0] == 'E' {
                Some(SelfAddressing::Blake3_256)
            } else if code[0] == 'F' {
                Some(SelfAddressing::Blake2B256)
            } else if code[0] == 'G' {
                Some(SelfAddressing::Blake2S256)
            } else if code[0] == 'H' {
                Some(SelfAddressing::SHA3_256)
            } else if code[0] == 'I' {
                Some(SelfAddressing::SHA2_256)
            } else {
                None
            }
        } else if code.len() == 2 && code[0] == '0' {
            if code[1] == 'D' {
                Some(SelfAddressing::Blake3_512)
            } else if code[1] == 'E' {
                Some(SelfAddressing::SHA3_512)
            } else if code[1] == 'F' {
                Some(SelfAddressing::Blake2B512)
            } else if code[1] == 'G' {
                Some(SelfAddressing::SHA2_512)
            } else {
                None
            }
        } else {
            None
        }
    }

    fn to_str(&self) -> (code: String) {
        proof {
            reveal_strlit("E");
            reveal_strlit("F");
            reveal_strlit("G");
            reveal_strlit("H");
            reveal_strlit("I");
            reveal_strlit("0D");
            reveal_strlit("0E");
            reveal_strlit("0F");
            reveal_strlit("0G");
        }
        let code = match self {
            SelfAddressing::Blake3_256 => String::from_str("E"),
            SelfAddressing::Blake2B256 => String::from_str("F"),
            SelfAddressing::Blake2S256 => String::from_str("G"),
            SelfAddressing::SHA3_256 => String::from_str("H"),
            SelfAddressing::SHA2_256 => String::from_str("I"),
            SelfAddressing::Blake3_512 => String::from_str("0D"),
            SelfAddressing::SHA3_512 => String::from_str("0E"),
            SelfAddressing::Blake2B512 => String::from_str("0F"),
            SelfAddressing::SHA2_512 => String::from_str("0G"),
        };
        assert(code@ =~= self.code());
        code
    }

    fn from_code(code: &[char]) -> (kind: Option<SelfAddressing>) {
        if code.len() == 1 {
            if code[0] == 'E' {
                Some(SelfAddressing::Blake3_256)
            } else if code[0] == 'F' {
                Some(SelfAddressing::Blake2B256)
            } else if code[0] == 'G' {
                Some(SelfAddressing::Blake2S256)
            } else if code[0] == 'H' {
                Some(SelfAddressing::SHA3_256)
            } else if code[0] == 'I' {
                Some(SelfAddressing::SHA2_256)
            } else {
                None
            }
        } else if code.len() == 2 && code[0] == '0' {
            if code[1] == 'D' {
                Some(SelfAddressing::Blake3_512)
            } else if code[1] == 'E' {
                Some(SelfAddressing::SHA3_512)
            } else if code[1] == 'F' {
                Some(SelfAddressing::Blake2B512)
            } else if code[1] == 'G' {
                Some(SelfAddressing::SHA2_512)
            } else {
                None
            }
        } else {
            None
        }
    }

    proof fn lemma_code(kind: Self) {
    }
}

impl SelfAddressing {
    /// The digest of `data` under the algorithm, where the library can compute it.
    pub open spec fn digest(self, data: Seq<u8>) -> Option<Seq<u8>> {
        match self {
            SelfAddressing::Blake2S256 => Some(blake2s_256(data)),
            SelfAddressing::SHA3_256 => Some(sha3_256(data)),
            SelfAddressing::SHA2_256 => Some(sha2_256(data)),
            SelfAddressing::SHA3_512 => Some(sha3_512(data)),
            SelfAddressing::Blake2B512 => Some(blake2b_512(data)),
            SelfAddressing::SHA2_512 => Some(sha2_512(data)),
            _ => None,
        }
    }

    /// The self-addressing prefix of `data`: its digest, marked with the algorithm.
    pub open spec fn derived(self, data: Seq<u8>) -> Result<Material<SelfAddressing>, Failure> {
        match self.digest(data) {
            Some(derivative) => Ok(Material { kind: self, derivative }),
            None => Err(Failure::ImproperPrefixType),
        }
    }

    /// Derives the self-addressing prefix of `data`: its digest under this algorithm.
    ///
    /// Fails with `ImproperPrefixType` for the algorithms that the library
    /// carries a code for but cannot compute.
    pub fn derive(&self, data: &[u8]) -> (res: Result<SelfAddressingPrefix, Error>)
        ensures
            outcome(res) == self.derived(data@),
            res matches Ok(prefix) ==> prefix@.encodable(),
    {
        match self {
            SelfAddressing::Blake2S256 => Ok(
                SelfAddressingPrefix::Blake2S256(blake2s_256_digest(data)),
            ),
            SelfAddressing::SHA3_256 => Ok(SelfAddressingPrefix::SHA3_256(sha3_256_digest(data))),
            SelfAddressing::SHA2_256 => Ok(SelfAddressingPrefix::SHA2_256(sha2_256_digest(data))),
            SelfAddressing::SHA3_512 => Ok(SelfAddressingPrefix::SHA3_512(sha3_512_digest(data))),
            SelfAddressing::Blake2B512 => Ok(
                SelfAddressingPrefix::Blake2B512(blake2b_512_digest(data)),
            ),
            SelfAddressing::SHA2_512 => Ok(SelfAddressingPrefix::SHA2_512(sha2_512_digest(data))),
            _ => Err(Error::ImproperPrefixType),
        }
    }
}

} // verus!
