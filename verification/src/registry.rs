use vstd::prelude::*;

verus! {

/// A character folded to upper case, for the ASCII letters only: team
/// abbreviations are ASCII, and any input holding another character is
/// unrecognized whatever its case.
pub open spec fn spec_upper_char(c: char) -> char {
    match c {
        'a' => 'A',
        'b' => 'B',
        'c' => 'C',
        'd' => 'D',
        'e' => 'E',
        'f' => 'F',
        'g' => 'G',
        'h' => 'H',
        'i' => 'I',
        'j' => 'J',
        'k' => 'K',
        'l' => 'L',
        'm' => 'M',
        'n' => 'N',
        'o' => 'O',
        'p' => 'P',
        'q' => 'Q',
        'r' => 'R',
        's' => 'S',
        't' => 'T',
        'u' => 'U',
        'v' => 'V',
        'w' => 'W',
        'x' => 'X',
        'y' => 'Y',
        'z' => 'Z',
        _ => c,
    }
}

/// A text folded to upper case, character by character.
pub open spec fn spec_upper(s: Seq<char>) -> Seq<char> {
    s.map_values(|c: char| spec_upper_char(c))
}

/// The fixed table of recognized team abbreviations: the numeric identifier
/// the upstream API gives the franchise, or nothing for an unrecognized
/// text. The upstream numbering has a gap: no abbreviation maps to 27.
pub open spec fn spec_team_id(s: Seq<char>) -> Option<u32> {
    if s == "ATL"@ {
        Some(1u32)
    } else if s == "BUF"@ {
        Some(2u32)
    } else if s == "CHI"@ {
        Some(3u32)
    } else if s == "CIN"@ {
        Some(4u32)
    } else if s == "CLE"@ {
        Some(5u32)
    } else if s == "DAL"@ {
        Some(6u32)
    } else if s == "DEN"@ {
        Some(7u32)
    } else if s == "DET"@ {
        Some(8u32)
    } else if s == "GB"@ {
        Some(9u32)
    } else if s == "TEN"@ {
        Some(10u32)
    } else if s == "IND"@ {
        Some(11u32)
    } else if s == "KC"@ {
        Some(12u32)
    } else if s == "LV"@ {
        Some(13u32)
    } else if s == "LAR"@ {
        Some(14u32)
    } else if s == "MIA"@ {
        Some(15u32)
    } else if s == "MIN"@ {
        Some(16u32)
    } else if s == "NE"@ {
        Some(17u32)
    } else if s == "NO"@ {
        Some(18u32)
    } else if s == "NYG"@ {
        Some(19u32)
    } else if s == "NYJ"@ {
        Some(20u32)
    } else if s == "PHI"@ {
        Some(21u32)
    } else if s == "ARI"@ {
        Some(22u32)
    } else if s == "PIT"@ {
        Some(23u32)
    } else if s == "LAC"@ {
        Some(24u32)
    } else if s == "SF"@ {
        Some(25u32)
    } else if s == "SEA"@ {
        Some(26u32)
    } else if s == "TB"@ {
        Some(28u32)
    } else if s == "WSH"@ {
        Some(29u32)
    } else if s == "CAR"@ {
        Some(30u32)
    } else if s == "JAX"@ {
        Some(31u32)
    } else {
        None
    }
}

/// A character folded to upper case.
fn upper_char(c: char) -> (r: char)
    ensures
        r == spec_upper_char(c),
{
    match c {
        'a' => 'A',
        'b' => 'B',
        'c' => 'C',
        'd' => 'D',
        'e' => 'E',
        'f' => 'F',
        'g' => 'G',
        'h' => 'H',
        'i' => 'I',
        'j' => 'J',
        'k' => 'K',
        'l' => 'L',
        'm' => 'M',
        'n' => 'N',
        'o' => 'O',
        'p' => 'P',
        'q' => 'Q',
        'r' => 'R',
        's' => 'S',
        't' => 'T',
        'u' => 'U',
        'v' => 'V',
        'w' => 'W',
        'x' => 'X',
        'y' => 'Y',
        'z' => 'Z',
        _ => c,
    }
}

/// The characters of a text, folded to upper case.
fn upper_chars(s: &str) -> (r: Vec<char>)
    ensures
        r@ == spec_upper(s@),
{
    let n = s.unicode_len();
    let mut r: Vec<char> = Vec::new();
    let mut i: usize = 0;
    while i < n
        invariant
            n == s@.len(),
            i <= n,
            r@ == spec_upper(s@.take(i as int)),
        decreases n - i,
    {
        let c = s.get_char(i);
        r.push(upper_char(c));
        i = i + 1;
        proof {
            assert(r@ =~= spec_upper(s@.take(i as int)));
        }
    }
    proof {
        assert(s@.take(n as int) =~= s@);
    }
    r
}

/// Whether the characters equal the literal's.
fn chars_eq_lit(v: &Vec<char>, lit: &str) -> (r: bool)
    ensures
        r == (v@ == lit@),
{
    let n = lit.unicode_len();
    if v.len() != n {
        return false;
    }
    let mut i: usize = 0;
    while i < n
        invariant
            n == lit@.len(),
            v@.len() == n,
            i <= n,
            forall|k: int| 0 <= k < i ==> v@[k] == lit@[k],
        decreases n - i,
    {
        if v[i] != lit.get_char(i) {
            return false;
        }
        i = i + 1;
    }
    proof {
        assert(v@ =~= lit@);
    }
    true
}

/// The identifier of the abbreviation held in `v`, by exact match against
/// the uppercase table.
fn lookup_chars(v: &Vec<char>) -> (r: Option<u32>)
    ensures
        r == spec_team_id(v@),
{
    if chars_eq_lit(v, "ATL") {
        Some(1)
    } else if chars_eq_lit(v, "BUF") {
        Some(2)
    } else if chars_eq_lit(v, "CHI") {
        Some(3)
    } else if chars_eq_lit(v, "CIN") {
        Some(4)
    } else if chars_eq_lit(v, "CLE") {
        Some(5)
    } else if chars_eq_lit(v, "DAL") {
        Some(6)
    } else if chars_eq_lit(v, "DEN") {
        Some(7)
    } else if chars_eq_lit(v, "DET") {
        Some(8)
    } else if chars_eq_lit(v, "GB") {
        Some(9)
    } else if chars_eq_lit(v, "TEN") {
        Some(10)
    } else if chars_eq_lit(v, "IND") {
        Some(11)
    } else if chars_eq_lit(v, "KC") {
        Some(12)
    } else if chars_eq_lit(v, "LV") {
        Some(13)
    } else if chars_eq_lit(v, "LAR") {
        Some(14)
    } else if chars_eq_lit(v, "MIA") {
        Some(15)
    } else if chars_eq_lit(v, "MIN") {
        Some(16)
    } else if chars_eq_lit(v, "NE") {
        Some(17)
    } else if chars_eq_lit(v, "NO") {
        Some(18)
    } else if chars_eq_lit(v, "NYG") {
        Some(19)
    } else if chars_eq_lit(v, "NYJ") {
        Some(20)
    } else if chars_eq_lit(v, "PHI") {
        Some(21)
    } else if chars_eq_lit(v, "ARI") {
        Some(22)
    } else if chars_eq_lit(v, "PIT") {
        Some(23)
    } else if chars_eq_lit(v, "LAC") {
        Some(24)
    } else if chars_eq_lit(v, "SF") {
        Some(25)
    } else if chars_eq_lit(v, "SEA") {
        Some(26)
    } else if chars_eq_lit(v, "TB") {
        Some(28)
    } else if chars_eq_lit(v, "WSH") {
        Some(29)
    } else if chars_eq_lit(v, "CAR") {
        Some(30)
    } else if chars_eq_lit(v, "JAX") {
        Some(31)
    } else {
        None
    }
}

/// The identifier of a team abbreviation, by exact match: the table's keys
/// are uppercase.
pub fn team_id(abbr: &str) -> (r: Option<u32>)
    ensures
        r == spec_team_id(abbr@),
{
    let n = abbr.unicode_len();
    let mut v: Vec<char> = Vec::new();
    let mut i: usize = 0;
    while i < n
        invariant
            n == abbr@.len(),
            i <= n,
            v@ == abbr@.take(i as int),
        decreases n - i,
    {
        v.push(abbr.get_char(i));
        i = i + 1;
        proof {
            assert(v@ =~= abbr@.take(i as int));
        }
    }
    proof {
        assert(abbr@.take(n as int) =~= abbr@);
    }
    lookup_chars(&v)
}

/// The identifier of a team abbreviation, whatever its case: the input is
/// folded to upper case before the exact match.
pub fn team_id_ci(abbr: &str) -> (r: Option<u32>)
    ensures
        r == spec_team_id(spec_upper(abbr@)),
{
    let v = upper_chars(abbr);
    lookup_chars(&v)
}

/// Folding to upper case twice is folding once.
pub proof fn lemma_upper_idempotent(s: Seq<char>)
    ensures
        spec_upper(spec_upper(s)) == spec_upper(s),
{
    assert forall|k: int| 0 <= k < s.len() implies spec_upper(s)[k] == spec_upper(
        spec_upper(s),
    )[k] by {
        assert(spec_upper_char(spec_upper_char(s[k])) == spec_upper_char(s[k]));
    }
    assert(spec_upper(spec_upper(s)) =~= spec_upper(s));
}

/// The case-insensitive lookup cannot tell two texts apart that agree up to
/// case: it returns the same answer for both.
pub proof fn lemma_lookup_case_insensitive(s: Seq<char>, t: Seq<char>)
    requires
        spec_upper(s) == spec_upper(t),
    ensures
        spec_team_id(spec_upper(s)) == spec_team_id(spec_upper(t)),
{
}

} // verus!
