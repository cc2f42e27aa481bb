//! The LoRaWAN regions that ChirpStack knows, and how a plan names them.
use vstd::prelude::*;
use crate::json::text;

verus! {

/// A LoRaWAN region of ChirpStack.
#[allow(non_camel_case_types)]
#[derive(Clone, Copy, Debug, PartialEq, Eq)]
pub enum Region {
    Eu868,
    Us915,
    Cn779,
    Eu433,
    Au915,
    Cn470,
    As923,
    As923_2,
    As923_3,
    As923_4,
    Kr920,
    In865,
    Ru864,
    Ism2400,
}

/// A region named in a plan that ChirpStack does not know.
#[derive(Debug)]
pub struct RegionError {
    pub region: String,
}

/// A character of a region's name as names are compared, as a code point: ASCII
/// letters in lower case, and a hyphen read as an underscore.
pub open spec fn name_code(c: char) -> u32 {
    if 'A' <= c <= 'Z' {
        (c as u32 + 32) as u32
    } else if c == '-' {
        '_' as u32
    } else {
        c as u32
    }
}

/// `s` spells `name` (written in lower case, with underscores) once its letters
/// are taken to lower case and its hyphens to underscores.
pub open spec fn spells(s: Seq<char>, name: Seq<char>) -> bool {
    &&& s.len() == name.len()
    &&& forall|i: int| 0 <= i < s.len() ==> name_code(#[trigger] s[i]) == name[i] as u32
}

pub open spec fn is_digit(c: char) -> bool {
    '0' <= c <= '9'
}

pub open spec fn digit_value(c: char) -> nat {
    (c as u32 - '0' as u32) as nat
}

/// The number of a sub-band: one digit, or two digits without a leading zero.
pub open spec fn band_number(t: Seq<char>) -> Option<nat> {
    if t.len() == 1 && is_digit(t[0]) {
        Some(digit_value(t[0]))
    } else if t.len() == 2 && is_digit(t[0]) && t[0] != '0' && is_digit(t[1]) {
        Some(10 * digit_value(t[0]) + digit_value(t[1]))
    } else {
        None
    }
}

/// `s` names a sub-band below `bands` of the region `base`: `<base>_<band>`.
pub open spec fn spells_band(s: Seq<char>, base: Seq<char>, bands: nat) -> bool {
    &&& s.len() > base.len() + 1
    &&& spells(s.subrange(0, base.len() as int), base)
    &&& name_code(s[base.len() as int]) == '_' as u32
    &&& band_number(s.subrange((base.len() + 1) as int, s.len() as int)) matches Some(b) && b < bands
}

/// The region that a plan's text names: one of ChirpStack's region names, or a
/// sub-band of US915 (`us915_0` to `us915_7`), AU915 (`au915_0` to `au915_7`) or
/// CN470 (`cn470_0` to `cn470_11`), compared without regard to ASCII case and
/// with a hyphen in place of an underscore allowed.
pub open spec fn region_of(s: Seq<char>) -> Option<Region> {
    if spells(s, "eu868"@) {
        Some(Region::Eu868)
    } else if spells(s, "us915"@) || spells_band(s, "us915"@, 8) {
        Some(Region::Us915)
    } else if spells(s, "cn779"@) {
        Some(Region::Cn779)
    } else if spells(s, "eu433"@) {
        Some(Region::Eu433)
    } else if spells(s, "au915"@) || spells_band(s, "au915"@, 8) {
        Some(Region::Au915)
    } else if spells(s, "cn470"@) || spells_band(s, "cn470"@, 12) {
        Some(Region::Cn470)
    } else if spells(s, "as923"@) {
        Some(Region::As923)
    } else if spells(s, "as923_2"@) {
        Some(Region::As923_2)
    } else if spells(s, "as923_3"@) {
        Some(Region::As923_3)
    } else if spells(s, "as923_4"@) {
        Some(Region::As923_4)
    } else if spells(s, "kr920"@) {
        Some(Region::Kr920)
    } else if spells(s, "in865"@) {
        Some(Region::In865)
    } else if spells(s, "ru864"@) {
        Some(Region::Ru864)
    } else if spells(s, "ism2400"@) {
        Some(Region::Ism2400)
    } else {
        None
    }
}

/// The name under which ChirpStack's API writes a region.
pub open spec fn region_label(r: Region) -> Seq<char> {
    match r {
        Region::Eu868 => "EU868"@,
        Region::Us915 => "US915"@,
        Region::Cn779 => "CN779"@,
        Region::Eu433 => "EU433"@,
        Region::Au915 => "AU915"@,
        Region::Cn470 => "CN470"@,
        Region::As923 => "AS923"@,
        Region::As923_2 => "AS923_2"@,
        Region::As923_3 => "AS923_3"@,
        Region::As923_4 => "AS923_4"@,
        Region::Kr920 => "KR920"@,
        Region::In865 => "IN865"@,
        Region::Ru864 => "RU864"@,
        Region::Ism2400 => "ISM2400"@,
    }
}

/// The name under which ChirpStack's API writes a region.
pub fn region_text(r: Region) -> (s: String)
    ensures
        s@ == region_label(r),
{
    match r {
        Region::Eu868 => text("EU868"),
        Region::Us915 => text("US915"),
        Region::Cn779 => text("CN779"),
        Region::Eu433 => text("EU433"),
        Region::Au915 => text("AU915"),
        Region::Cn470 => text("CN470"),
        Region::As923 => text("AS923"),
        Region::As923_2 => text("AS923_2"),
        Region::As923_3 => text("AS923_3"),
        Region::As923_4 => text("AS923_4"),
        Region::Kr920 => text("KR920"),
        Region::In865 => text("IN865"),
        Region::Ru864 => text("RU864"),
        Region::Ism2400 => text("ISM2400"),
    }
}

proof fn lemma_spells_each(s: Seq<char>, name: Seq<char>)
    requires
        s.len() == name.len(),
        s.len() <= 7,
        s.len() > 0 ==> name_code(s[0]) == name[0] as u32,
        s.len() > 1 ==> name_code(s[1]) == name[1] as u32,
        s.len() > 2 ==> name_code(s[2]) == name[2] as u32,
        s.len() > 3 ==> name_code(s[3]) == name[3] as u32,
        s.len() > 4 ==> name_code(s[4]) == name[4] as u32,
        s.len() > 5 ==> name_code(s[5]) == name[5] as u32,
        s.len() > 6 ==> name_code(s[6]) == name[6] as u32,
    ensures
        spells(s, name),
{
    assert forall|i: int| 0 <= i < s.len() implies name_code(#[trigger] s[i]) == name[i] as u32 by {
        if i == 0 {
        } else if i == 1 {
        } else if i == 2 {
        } else if i == 3 {
        } else if i == 4 {
        } else if i == 5 {
        } else {
        }
    }
}

proof fn lemma_not_spells_at(s: Seq<char>, name: Seq<char>, i: int)
    requires
        0 <= i < s.len(),
        name_code(s[i]) != name[i] as u32,
    ensures
        !spells(s, name),
{
}

proof fn lemma_not_band_at(s: Seq<char>, base: Seq<char>, bands: nat, i: int)
    requires
        0 <= i < base.len(),
        base.len() < s.len(),
        name_code(s[i]) != base[i] as u32,
    ensures
        !spells_band(s, base, bands),
{
    assert(s.subrange(0, base.len() as int)[i] == s[i]);
}

/// The name under which ChirpStack's API writes a region names that region: read
/// back as a plan's text, it gives the same region.
pub proof fn law_region_label_names_the_region(r: Region)
    ensures
        region_of(region_label(r)) == Some(r),
{
    reveal_strlit("eu868");
    reveal_strlit("us915");
    reveal_strlit("cn779");
    reveal_strlit("eu433");
    reveal_strlit("au915");
    reveal_strlit("cn470");
    reveal_strlit("as923");
    reveal_strlit("as923_2");
    reveal_strlit("as923_3");
    reveal_strlit("as923_4");
    reveal_strlit("kr920");
    reveal_strlit("in865");
    reveal_strlit("ru864");
    reveal_strlit("ism2400");
    reveal_strlit("EU868");
    reveal_strlit("US915");
    reveal_strlit("CN779");
    reveal_strlit("EU433");
    reveal_strlit("AU915");
    reveal_strlit("CN470");
    reveal_strlit("AS923");
    reveal_strlit("AS923_2");
    reveal_strlit("AS923_3");
    reveal_strlit("AS923_4");
    reveal_strlit("KR920");
    reveal_strlit("IN865");
    reveal_strlit("RU864");
    reveal_strlit("ISM2400");
    match r {
        Region::Eu868 => {
            let l = "EU868"@;
            assert(l[0] == 'E');
            assert(l[1] == 'U');
            assert(l[2] == '8');
            assert(l[3] == '6');
            assert(l[4] == '8');
            lemma_spells_each(l, "eu868"@);
        },
        Region::Us915 => {
            let l = "US915"@;
            assert(l[0] == 'U');
            assert(l[1] == 'S');
            assert(l[2] == '9');
            assert(l[3] == '1');
            assert(l[4] == '5');
            lemma_not_spells_at(l, "eu868"@, 0);
            lemma_spells_each(l, "us915"@);
        },
        Region::Cn779 => {
            let l = "CN779"@;
            assert(l[0] == 'C');
            assert(l[1] == 'N');
            assert(l[2] == '7');
            assert(l[3] == '7');
            assert(l[4] == '9');
            lemma_not_spells_at(l, "eu868"@, 0);
            lemma_not_spells_at(l, "us915"@, 0);
            lemma_spells_each(l, "cn779"@);
        },
        Region::Eu433 => {
            let l = "EU433"@;
            assert(l[0] == 'E');
            assert(l[1] == 'U');
            assert(l[2] == '4');
            assert(l[3] == '3');
            assert(l[4] == '3');
            lemma_not_spells_at(l, "eu868"@, 2);
            lemma_not_spells_at(l, "us915"@, 0);
            lemma_not_spells_at(l, "cn779"@, 0);
            lemma_spells_each(l, "eu433"@);
        },
        Region::Au915 => {
            let l = "AU915"@;
            assert(l[0] == 'A');
            assert(l[1] == 'U');
            assert(l[2] == '9');
            assert(l[3] == '1');
            assert(l[4] == '5');
            lemma_not_spells_at(l, "eu868"@, 0);
            lemma_not_spells_at(l, "us915"@, 0);
            lemma_not_spells_at(l, "cn779"@, 0);
            lemma_not_spells_at(l, "eu433"@, 0);
            lemma_spells_each(l, "au915"@);
        },
        Region::Cn470 => {
            let l = "CN470"@;
            assert(l[0] == 'C');
            assert(l[1] == 'N');
            assert(l[2] == '4');
            assert(l[3] == '7');
            assert(l[4] == '0');
            lemma_not_spells_at(l, "eu868"@, 0);
            lemma_not_spells_at(l, "us915"@, 0);
            lemma_not_spells_at(l, "cn779"@, 2);
            lemma_not_spells_at(l, "eu433"@, 0);
            lemma_not_spells_at(l, "au915"@, 0);
            lemma_spells_each(l, "cn470"@);
        },
        Region::As923 => {
            let l = "AS923"@;
            assert(l[0] == 'A');
            assert(l[1] == 'S');
            assert(l[2] == '9');
            assert(l[3] == '2');
            assert(l[4] == '3');
            lemma_not_spells_at(l, "eu868"@, 0);
            lemma_not_spells_at(l, "us915"@, 0);
            lemma_not_spells_at(l, "cn779"@, 0);
            lemma_not_spells_at(l, "eu433"@, 0);
            lemma_not_spells_at(l, "au915"@, 1);
            lemma_not_spells_at(l, "cn470"@, 0);
            lemma_spells_each(l, "as923"@);
        },
        Region::As923_2 => {
            let l = "AS923_2"@;
            assert(l[0] == 'A');
            assert(l[1] == 'S');
            assert(l[2] == '9');
            assert(l[3] == '2');
            assert(l[4] == '3');
            assert(l[5] == '_');
            assert(l[6] == '2');
            lemma_not_band_at(l, "us915"@, 8, 0);
            lemma_not_band_at(l, "au915"@, 8, 1);
            lemma_not_band_at(l, "cn470"@, 12, 0);
            lemma_spells_each(l, "as923_2"@);
        },
        Region::As923_3 => {
            let l = "AS923_3"@;
            assert(l[0] == 'A');
            assert(l[1] == 'S');
            assert(l[2] == '9');
            assert(l[3] == '2');
            assert(l[4] == '3');
            assert(l[5] == '_');
            assert(l[6] == '3');
            lemma_not_band_at(l, "us915"@, 8, 0);
            lemma_not_band_at(l, "au915"@, 8, 1);
            lemma_not_band_at(l, "cn470"@, 12, 0);
            lemma_not_spells_at(l, "as923_2"@, 6);
            lemma_spells_each(l, "as923_3"@);
        },
        Region::As923_4 => {
            let l = "AS923_4"@;
            assert(l[0] == 'A');
            assert(l[1] == 'S');
            assert(l[2] == '9');
            assert(l[3] == '2');
            assert(l[4] == '3');
            assert(l[5] == '_');
            assert(l[6] == '4');
            lemma_not_band_at(l, "us915"@, 8, 0);
            lemma_not_band_at(l, "au915"@, 8, 1);
            lemma_not_band_at(l, "cn470"@, 12, 0);
            lemma_not_spells_at(l, "as923_2"@, 6);
            lemma_not_spells_at(l, "as923_3"@, 6);
            lemma_spells_each(l, "as923_4"@);
        },
        Region::Kr920 => {
            let l = "KR920"@;
            assert(l[0] == 'K');
            assert(l[1] == 'R');
            assert(l[2] == '9');
            assert(l[3] == '2');
            assert(l[4] == '0');
            lemma_not_spells_at(l, "eu868"@, 0);
            lemma_not_spells_at(l, "us915"@, 0);
            lemma_not_spells_at(l, "cn779"@, 0);
            lemma_not_spells_at(l, "eu433"@, 0);
            lemma_not_spells_at(l, "au915"@, 0);
            lemma_not_spells_at(l, "cn470"@, 0);
            lemma_not_spells_at(l, "as923"@, 0);
            lemma_spells_each(l, "kr920"@);
        },
        Region::In865 => {
            let l = "IN865"@;
            assert(l[0] == 'I');
            assert(l[1] == 'N');
            assert(l[2] == '8');
            assert(l[3] == '6');
            assert(l[4] == '5');
            lemma_not_spells_at(l, "eu868"@, 0);
            lemma_not_spells_at(l, "us915"@, 0);
            lemma_not_spells_at(l, "cn779"@, 0);
            lemma_not_spells_at(l, "eu433"@, 0);
            lemma_not_spells_at(l, "au915"@, 0);
            lemma_not_spells_at(l, "cn470"@, 0);
            lemma_not_spells_at(l, "as923"@, 0);
            lemma_not_spells_at(l, "kr920"@, 0);
            lemma_spells_each(l, "in865"@);
        },
        Region::Ru864 => {
            let l = "RU864"@;
            assert(l[0] == 'R');
            assert(l[1] == 'U');
            assert(l[2] == '8');
            assert(l[3] == '6');
            assert(l[4] == '4');
            lemma_not_spells_at(l, "eu868"@, 0);
            lemma_not_spells_at(l, "us915"@, 0);
            lemma_not_spells_at(l, "cn779"@, 0);
            lemma_not_spells_at(l, "eu433"@, 0);
            lemma_not_spells_at(l, "au915"@, 0);
            lemma_not_spells_at(l, "cn470"@, 0);
            lemma_not_spells_at(l, "as923"@, 0);
            lemma_not_spells_at(l, "kr920"@, 0);
            lemma_not_spells_at(l, "in865"@, 0);
            lemma_spells_each(l, "ru864"@);
        },
        Region::Ism2400 => {
            let l = "ISM2400"@;
            assert(l[0] == 'I');
            assert(l[1] == 'S');
            assert(l[2] == 'M');
            assert(l[3] == '2');
            assert(l[4] == '4');
            assert(l[5] == '0');
            assert(l[6] == '0');
            lemma_not_band_at(l, "us915"@, 8, 0);
            lemma_not_band_at(l, "au915"@, 8, 0);
            lemma_not_band_at(l, "cn470"@, 12, 0);
            lemma_not_spells_at(l, "as923_2"@, 0);
            lemma_not_spells_at(l, "as923_3"@, 0);
            lemma_not_spells_at(l, "as923_4"@, 0);
            lemma_spells_each(l, "ism2400"@);
        },
    }
}

fn fold_name_char(c: char) -> (r: u32)
    ensures
        r == name_code(c),
{
    if 'A' <= c && c <= 'Z' {
        c as u32 + 32
    } else if c == '-' {
        '_' as u32
    } else {
        c as u32
    }
}

/// Whether the characters `from..to` of `s` spell `name`.
fn spells_range(s: &str, from: usize, to: usize, name: &str) -> (r: bool)
    requires
        from <= to <= s@.len(),
    ensures
        r == spells(s@.subrange(from as int, to as int), name@),
{
    let n = name.unicode_len();
    if to - from != n {
        return false;
    }
    let ghost part = s@.subrange(from as int, to as int);
    let mut i: usize = 0;
    while i < n
        invariant
            n == name@.len(),
            from + n == to,
            to <= s@.len(),
            part == s@.subrange(from as int, to as int),
            i <= n,
            forall|j: int| 0 <= j < i ==> name_code(#[trigger] part[j]) == name@[j] as u32,
        decreases n - i,
    {
        if fold_name_char(s.get_char(from + i)) != name.get_char(i) as u32 {
            assert(part[i as int] == s@[from + i]);
            return false;
        }
        assert(part[i as int] == s@[from + i]);
        i = i + 1;
    }
    true
}

/// Whether `s` spells `name`.
fn is_name(s: &str, name: &str) -> (r: bool)
    ensures
        r == spells(s@, name@),
{
    let r = spells_range(s, 0, s.unicode_len(), name);
    assert(s@.subrange(0, s@.len() as int) =~= s@);
    r
}

fn digit_of(c: char) -> (r: u64)
    requires
        is_digit(c),
    ensures
        r == digit_value(c),
{
    c as u64 - '0' as u64
}

/// Whether `s` names a sub-band below `bands` of `base`.
fn is_band(s: &str, base: &str, bands: u64) -> (r: bool)
    ensures
        r == spells_band(s@, base@, bands as nat),
{
    let n = s.unicode_len();
    let b = base.unicode_len();
    if n <= b || n - b < 2 {
        return false;
    }
    if !spells_range(s, 0, b, base) || fold_name_char(s.get_char(b)) != '_' as u32 {
        return false;
    }
    let ghost t = s@.subrange(b + 1, n as int);
    let first = s.get_char(b + 1);
    assert(t[0] == first);
    let number: u64 = if n - b == 2 {
        if !('0' <= first && first <= '9') {
            return false;
        }
        digit_of(first)
    } else if n - b == 3 {
        let second = s.get_char(b + 2);
        assert(t[1] == second);
        if !('1' <= first && first <= '9' && '0' <= second && second <= '9') {
            return false;
        }
        10 * digit_of(first) + digit_of(second)
    } else {
        return false;
    };
    number < bands
}

/// The region that a plan's text names, or an error that carries the text.
pub fn parse_region(s: &str) -> (r: Result<Region, RegionError>)
    ensures
        match r {
            Ok(region) => region_of(s@) == Some(region),
            Err(e) => region_of(s@) is None && e.region@ == s@,
        },
{
    if is_name(s, "eu868") {
        Ok(Region::Eu868)
    } else if is_name(s, "us915") || is_band(s, "us915", 8) {
        Ok(Region::Us915)
    } else if is_name(s, "cn779") {
        Ok(Region::Cn779)
    } else if is_name(s, "eu433") {
        Ok(Region::Eu433)
    } else if is_name(s, "au915") || is_band(s, "au915", 8) {
        Ok(Region::Au915)
    } else if is_name(s, "cn470") || is_band(s, "cn470", 12) {
        Ok(Region::Cn470)
    } else if is_name(s, "as923") {
        Ok(Region::As923)
    } else if is_name(s, "as923_2") {
        Ok(Region::As923_2)
    } else if is_name(s, "as923_3") {
        Ok(Region::As923_3)
    } else if is_name(s, "as923_4") {
        Ok(Region::As923_4)
    } else if is_name(s, "kr920") {
        Ok(Region::Kr920)
    } else if is_name(s, "in865") {
        Ok(Region::In865)
    } else if is_name(s, "ru864") {
        Ok(Region::Ru864)
    } else if is_name(s, "ism2400") {
        Ok(Region::Ism2400)
    } else {
        Err(RegionError { region: text(s) })
    }
}

} // verus!
