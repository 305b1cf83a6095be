use crate::prefix::code_len;
use crate::prefix::DerivationCode;
use crate::prefix::SelfSigningPrefix;
use crate::util::base64::is_base64_text;
use vstd::prelude::*;
use vstd::string::StringExecFns;

verus! {

/// The signature schemes by which a self-signing prefix can be made.
#[allow(non_camel_case_types)]
#[derive(Clone, Copy, Debug, PartialEq, Eq, Structural)]
pub enum SelfSigning {
    ECDSAsecp256k1Sha256,
    Ed25519Sha512,
    Ed448,
}

impl DerivationCode for SelfSigning {
    open spec fn code(self) -> Seq<char> {
        match self {
            SelfSigning::ECDSAsecp256k1Sha256 => seq!['0', 'C'],
            SelfSigning::Ed25519Sha512 => seq!['0', 'B'],
            SelfSigning::Ed448 => seq!['1', 'A', 'A', 'E'],
        }
    }

    open spec fn of_code(code: Seq<char>) -> Option<SelfSigning> {
        if code.len() == 2 && code[0] == '0' {
            if code[1] == 'C' {
                Some(SelfSigning::ECDSAsecp256k1Sha256)
            } else if code[1] == 'B' {
                Some(SelfSigning::Ed25519Sha512)
            } else {
                None
            }
        } else if code.len() == 4 && code[0] == '1' && code[1] == 'A' && code[2] == 'A' {
            if code[3] == 'E' {
                Some(SelfSigning::Ed448)
            } else {
                None
            }
        } else {
            None
        }
    }

    fn to_str(&self) -> (code: String) {
        proof {
            reveal_strlit("0C");
            reveal_strlit("0B");
            reveal_strlit("1AAE");
        }
        let code = match self {
            SelfSigning::ECDSAsecp256k1Sha256 => String::from_str("0C"),
            SelfSigning::Ed25519Sha512 => String::from_str("0B"),
            SelfSigning::Ed448 => String::from_str("1AAE"),
        };
        assert(code@ =~= self.code());
        code
    }

    fn from_code(code: &[char]) -> (kind: Option<SelfSigning>) {
        if code.len() == 2 && code[0] == '0' {
            if code[1] == 'C' {
                Some(SelfSigning::ECDSAsecp256k1Sha256)
            } else if code[1] == 'B' {
                Some(SelfSigning::Ed25519Sha512)
            } else {
                None
            }
        } else if code.len() == 4 && code[0] == '1' && code[1] == 'A' && code[2] == 'A' {
            if code[3] == 'E' {
                Some(SelfSigning::Ed448)
            } else {
                None
            }
        } else {
            None
        }
    }

    proof fn lemma_code(kind: Self) {
    }
}

impl SelfSigning {
    /// Derives the self-signing prefix of a signature: the signature itself, marked
    /// with its scheme.
    pub fn derive(&self, signature: Vec<u8>) -> (p: SelfSigningPrefix)
        ensures
            p@.kind == *self,
            p@.derivative == signature@,
    {
        SelfSigningPrefix::new(*self, signature)
    }
}

} // verus!
