//! The service's configuration and the reading of its commitment level.

use vstd::prelude::*;
use vstd::string::*;

verus! {

/// The whole configuration file.
pub struct Config {
    pub yellowstone: YellowstoneConfig,
    pub discovery: DiscoveryConfig,
}

/// Where pool discovery looks: the RPC endpoint and the programs whose
/// transactions are watched.
pub struct DiscoveryConfig {
    pub rpc: String,
    pub programs: Vec<String>,
}

/// The Yellowstone gRPC endpoint, its token, and the commitment level asked
/// for, as written in the file.
pub struct YellowstoneConfig {
    pub grpc: String,
    pub x_token: Option<String>,
    pub commitment: String,
}

/// The commitment levels a subscription can ask for.
#[derive(Debug, Clone, Copy, PartialEq, Eq, Structural)]
pub enum Commitment {
    Processed,
    Confirmed,
    Finalized,
}

/// `c` with ASCII upper-case letters made lower-case; other characters unchanged.
pub open spec fn ascii_lower(c: char) -> char {
    if 'A' <= c && c <= 'Z' {
        ((c as u32) + 32) as char
    } else {
        c
    }
}

/// `text` with every ASCII upper-case letter made lower-case.
pub open spec fn ascii_lowercase(text: Seq<char>) -> Seq<char> {
    text.map_values(|c: char| ascii_lower(c))
}

/// The level a configured text names: `confirmed` and `finalized` in any ASCII
/// case name those levels; anything else means `Processed`.
pub open spec fn commitment_named(text: Seq<char>) -> Commitment {
    if ascii_lowercase(text) == "confirmed"@ {
        Commitment::Confirmed
    } else if ascii_lowercase(text) == "finalized"@ {
        Commitment::Finalized
    } else {
        Commitment::Processed
    }
}

/// The commitment text a configuration without one gets: the earliest state
/// a node admits.
pub fn default_commitment() -> (text: String)
    ensures
        text@ == "processed"@,
{
    String::from_str("processed")
}

/// Whether `c`, made lower-case, is `lower`.
fn char_lowers_to(c: char, lower: char) -> (same: bool)
    ensures
        same == (ascii_lower(c) == lower),
{
    if 'A' <= c && c <= 'Z' {
        proof {
            assert(((c as u32) + 32) as char as u32 == (c as u32) + 32);
        }
        (c as u32) + 32 == (lower as u32)
    } else {
        c == lower
    }
}

/// Whether `text`, made lower-case, is `lower`.
fn lowercases_to(text: &str, lower: &str) -> (same: bool)
    ensures
        same == (ascii_lowercase(text@) == lower@),
{
    let n: usize = text.unicode_len();
    if n != lower.unicode_len() {
        proof {
            assert(ascii_lowercase(text@).len() != lower@.len());
        }
        return false;
    }
    let mut i: usize = 0;
    while i < n
        invariant
            n == text@.len(),
            n == lower@.len(),
            i <= n,
            forall|j: int| 0 <= j < i ==> ascii_lower(#[trigger] text@[j]) == lower@[j],
        decreases n - i,
    {
        if !char_lowers_to(text.get_char(i), lower.get_char(i)) {
            proof {
                assert(ascii_lowercase(text@)[i as int] != lower@[i as int]);
            }
            return false;
        }
        i = i + 1;
    }
    proof {
        assert(ascii_lowercase(text@) =~= lower@);
    }
    true
}

impl YellowstoneConfig {
    /// The commitment level the configured text names.
    pub fn commitment_from_str(&self) -> (level: Commitment)
        ensures
            level == commitment_named(self.commitment@),
    {
        let text = self.commitment.as_str();
        if lowercases_to(text, "confirmed") {
            Commitment::Confirmed
        } else if lowercases_to(text, "finalized") {
            Commitment::Finalized
        } else {
            Commitment::Processed
        }
    }
}

/// A configuration that leaves the commitment out asks for `Processed`.
pub proof fn lemma_default_commitment_is_processed()
    ensures
        commitment_named("processed"@) == Commitment::Processed,
{
    reveal_strlit("processed");
    reveal_strlit("confirmed");
    reveal_strlit("finalized");
    assert(ascii_lowercase("processed"@)[0] == 'p');
    assert(ascii_lowercase("processed"@)[0] != "confirmed"@[0]);
    assert(ascii_lowercase("processed"@)[0] != "finalized"@[0]);
}

/// Lowering maps each ASCII upper-case letter to the lower-case letter 32
/// code points above it, and leaves every other character alone.
pub proof fn lemma_ascii_lower_letters(c: char)
    ensures
        ('A' <= c && c <= 'Z') ==> ascii_lower(c) as u32 == (c as u32) + 32,
        ('A' <= c && c <= 'Z') ==> 'a' <= ascii_lower(c) && ascii_lower(c) <= 'z',
        !('A' <= c && c <= 'Z') ==> ascii_lower(c) == c,
{
    if 'A' <= c && c <= 'Z' {
        assert(((c as u32) + 32) as char as u32 == (c as u32) + 32);
    }
}

/// A text names `finalized` (or `confirmed`) exactly when, character for
/// character, each is that letter or its upper-case form (32 code points
/// below).
pub proof fn lemma_commitment_names_any_case(text: Seq<char>)
    ensures
        commitment_named(text) == Commitment::Finalized <==> matches_any_case(text, "finalized"@),
        commitment_named(text) == Commitment::Confirmed <==> matches_any_case(text, "confirmed"@),
{
    reveal_strlit("finalized");
    reveal_strlit("confirmed");
    lemma_lowercase_matches(text, "finalized"@);
    lemma_lowercase_matches(text, "confirmed"@);
    if ascii_lowercase(text) == "confirmed"@ {
        assert(ascii_lowercase(text)[0] != "finalized"@[0]);
    }
}

/// `text` is `lower` (a word of lower-case ASCII letters) with any of its
/// letters written in upper case.
pub open spec fn matches_any_case(text: Seq<char>, lower: Seq<char>) -> bool {
    &&& text.len() == lower.len()
    &&& forall|i: int|
        0 <= i < text.len() ==> (text[i] == lower[i] || (text[i] as u32) + 32 == lower[i] as u32)
}

proof fn lemma_lowercase_matches(text: Seq<char>, lower: Seq<char>)
    requires
        forall|i: int| 0 <= i < lower.len() ==> 'a' <= #[trigger] lower[i] && lower[i] <= 'z',
    ensures
        (ascii_lowercase(text) == lower) <==> matches_any_case(text, lower),
{
    if ascii_lowercase(text) == lower {
        assert forall|i: int| 0 <= i < text.len() implies (text[i] == lower[i] || (text[i] as u32)
            + 32 == lower[i] as u32) by {
            lemma_ascii_lower_letters(text[i]);
            assert(ascii_lowercase(text)[i] == ascii_lower(text[i]));
        }
    }
    if matches_any_case(text, lower) {
        assert forall|i: int| 0 <= i < text.len() implies ascii_lowercase(text)[i] == lower[i] by {
            lemma_ascii_lower_letters(text[i]);
            assert('a' <= lower[i] && lower[i] <= 'z');
            if text[i] != lower[i] {
                assert((text[i] as u32) + 32 == lower[i] as u32);
                assert('A' <= text[i] && text[i] <= 'Z');
                assert(ascii_lower(text[i]) as u32 == lower[i] as u32);
            }
        }
        assert(ascii_lowercase(text) =~= lower);
    }
}

/// Reading the level ignores ASCII case.
pub proof fn lemma_commitment_ignores_case(a: Seq<char>, b: Seq<char>)
    requires
        ascii_lowercase(a) == ascii_lowercase(b),
    ensures
        commitment_named(a) == commitment_named(b),
{
}

} // verus!
