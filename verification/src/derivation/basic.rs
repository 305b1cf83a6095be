use crate::prefix::code_len;
use crate::prefix::BasicPrefix;
use crate::prefix::DerivationCode;
use crate::util::base64::is_base64_text;
use vstd::prelude::*;
use vstd::string::StringExecFns;

verus! {

/// The kinds of public key that a basic prefix can hold.
#[allow(non_camel_case_types)]
#[derive(Clone, Copy, Debug, PartialEq, Eq, Structural)]
pub enum Basic {
    ECDSAsecp256k1NT,
    ECDSAsecp256k1,
    Ed25519NT,
    Ed25519,
    Ed448NT,
    Ed448,
    X25519,
    X448,
}

impl DerivationCode for Basic {
    open spec fn code(self) -> Seq<char> {
        match self {
            Basic::ECDSAsecp256k1NT => seq!['1', 'A', 'A', 'A'],
            Basic::ECDSAsecp256k1 => seq!['1', 'A', 'A', 'B'],
            Basic::Ed25519NT => seq!['B'],
            Basic::Ed25519 => seq!['D'],
            Basic::Ed448NT => seq!['1', 'A', 'A', 'C'],
            Basic::Ed448 => seq!['1', 'A', 'A', 'D'],
            Basic::X25519 => seq!['C'],
            Basic::X448 => seq!['L'],
        }
    }

    open spec fn of_code(code: Seq<char>) -> Option<Basic> {
        if code.len() == 1 {
            if code[0] == 'B' {
                Some(Basic::Ed25519NT)
            } else if code[0] == 'D' {
                Some(Basic::Ed25519)
            } else if code[0] == 'C' {
                Some(Basic::X25519)
            } else if code[0] == 'L' {
                Some(Basic::X448)
            } else {
                None
            }
        } else if code.len() == 4 && code[0] == '1' && code[1] == 'A' && code[2] == 'A' {
            if code[3] == 'A' {
                Some(Basic::ECDSAsecp256k1NT)
            } else if code[3] == 'B' {
                Some(Basic::ECDSAsecp256k1)
            } else if code[3] == 'C' {
                Some(Basic::Ed448NT)
            } else if code[3] == 'D' {
                Some(Basic::Ed448)
            } else {
                None
            }
        } else {
            None
        }
    }

    fn to_str(&self) -> (code: String) {
        proof {
            reveal_strlit("1AAA");
            reveal_strlit("1AAB");
            reveal_strlit("B");
            reveal_strlit("D");
            reveal_strlit("1AAC");
            reveal_strlit("1AAD");
            reveal_strlit("C");
            reveal_strlit("L");
        }
        let code = match self {
            Basic::ECDSAsecp256k1NT => String::from_str("1AAA"),
            Basic::ECDSAsecp256k1 => String::from_str("1AAB"),
            Basic::Ed25519NT => String::from_str("B"),
            Basic::Ed25519 => String::from_str("D"),
            Basic::Ed448NT => String::from_str("1AAC"),
            Basic::Ed448 => String::from_str("1AAD"),
            Basic::X25519 => String::from_str("C"),
            Basic::X448 => String::from_str("L"),
        };
        assert(code@ =~= self.code());
        code
    }

    fn from_code(code: &[char]) -> (kind: Option<Basic>) {
        if code.len() == 1 {
            if code[0] == 'B' {
                Some(Basic::Ed25519NT)
            } else if code[0] == 'D' {
                Some(Basic::Ed25519)
            } else if code[0] == 'C' {
                Some(Basic::X25519)
            } else if code[0] == 'L' {
                Some(Basic::X448)
            } else {
                None
            }
        } else if code.len() == 4 && code[0] == '1' && code[1] == 'A' && code[2] == 'A' {
            if code[3] == 'A' {
                Some(Basic::ECDSAsecp256k1NT)
            } else if code[3] == 'B' {
                Some(Basic::ECDSAsecp256k1)
            } else if code[3] == 'C' {
                Some(Basic::Ed448NT)
            } else if code[3] == 'D' {
                Some(Basic::Ed448)
            } else {
                None
            }
        } else {
            None
        }
    }

    proof fn lemma_code(kind: Self) {
    }
}

impl Basic {
    /// Derives the basic prefix of a public key: the key itself, marked with its kind.
    pub fn derive(&self, public_key: Vec<u8>) -> (p: BasicPrefix)
        ensures
            p@.kind == *self,
            p@.derivative == public_key@,
    {
        BasicPrefix::new(*self, public_key)
    }
}

} // verus!
