//! Listings of ChirpStack, read page by page until their total count.
use vstd::prelude::*;
use crate::error::ProvisionError;
use crate::request::{decimal_text, digit_char};
use crate::json::{field, field_of, items_v, lemma_view_items, text, view_items, Json, JsonV};

verus! {

/// Every character of `t` is a decimal digit.
pub open spec fn all_digits(t: Seq<char>) -> bool {
    forall|i: int| 0 <= i < t.len() ==> '0' <= #[trigger] t[i] <= '9'
}

/// The value of a text of decimal digits.
pub open spec fn digits_value(t: Seq<char>) -> nat
    decreases t.len(),
{
    if t.len() == 0 {
        0
    } else {
        10 * digits_value(t.drop_last()) + (t.last() as u32 - '0' as u32) as nat
    }
}

/// The number that a decimal text states, where it is one that fits in 64 bits.
pub open spec fn decimal_value(t: Seq<char>) -> Option<nat> {
    if t.len() > 0 && all_digits(t) && digits_value(t) <= u64::MAX {
        Some(digits_value(t))
    } else {
        None
    }
}

/// The items of a page of a listing: its `result` array, and none where the page
/// has no `result` (ChirpStack leaves an empty list out).
pub open spec fn page_items(reply: JsonV) -> Option<Seq<JsonV>> {
    match field_of(reply, "result"@) {
        None => Some(Seq::empty()),
        Some(JsonV::Array(items)) => Some(items),
        _ => None,
    }
}

/// The total count that a page of a listing states in `totalCount`, as a number or
/// as its decimal text; zero where the page leaves it out.
pub open spec fn page_total(reply: JsonV) -> Option<nat> {
    match field_of(reply, "totalCount"@) {
        None => Some(0),
        Some(JsonV::UInt(n)) => Some(n as nat),
        Some(JsonV::Number(t)) => decimal_value(t),
        Some(JsonV::Str(t)) => decimal_value(t),
        _ => None,
    }
}

/// The items collected after a page of `total` items in all: an empty page before
/// the total is reached leaves the listing incomplete; otherwise the page is
/// appended, and the flag tells whether the total is reached.
pub open spec fn appended(collected: Seq<JsonV>, page: Seq<JsonV>, total: nat) -> Result<
    (Seq<JsonV>, bool),
    ProvisionError,
> {
    if page.len() == 0 && collected.len() < total {
        Err(ProvisionError::IncompleteListing)
    } else {
        Ok((collected + page, collected.len() + page.len() >= total))
    }
}

/// The items collected after the reply `reply` to the request of the next page.
pub open spec fn page_step(collected: Seq<JsonV>, reply: JsonV) -> Result<(Seq<JsonV>, bool), ProvisionError> {
    match (page_items(reply), page_total(reply)) {
        (Some(items), Some(total)) => appended(collected, items, total),
        _ => Err(ProvisionError::UnreadableListing),
    }
}

proof fn lemma_digit_char(d: nat)
    requires
        d < 10,
    ensures
        '0' <= digit_char(d) <= '9',
        (digit_char(d) as u32 - '0' as u32) as nat == d,
{
}

/// The decimal text in which an offset is written is read back as the same
/// number: it is all digits, and their value is the offset.
pub proof fn law_decimal_text_reads_back(n: nat)
    ensures
        decimal_text(n).len() > 0,
        all_digits(decimal_text(n)),
        digits_value(decimal_text(n)) == n,
    decreases n,
{
    if n < 10 {
        lemma_digit_char(n);
        let t = decimal_text(n);
        assert(t.drop_last() =~= Seq::<char>::empty());
        assert(t.last() == digit_char(n));
        assert(digits_value(t) == 10 * digits_value(t.drop_last()) + (t.last() as u32 - '0' as u32) as nat);
    } else {
        law_decimal_text_reads_back(n / 10);
        lemma_digit_char(n % 10);
        let t = decimal_text(n);
        assert(t.drop_last() =~= decimal_text(n / 10));
        assert(t.last() == digit_char(n % 10));
        assert(digits_value(t) == 10 * digits_value(t.drop_last()) + (t.last() as u32 - '0' as u32) as nat);
        assert(10 * (n / 10) + n % 10 == n);
        assert forall|i: int| 0 <= i < t.len() implies '0' <= #[trigger] t[i] <= '9' by {
            if i < t.len() - 1 {
                assert(t[i] == decimal_text(n / 10)[i]);
            }
        }
    }
}

proof fn lemma_digits_grow(t: Seq<char>, i: int)
    requires
        0 <= i <= t.len(),
    ensures
        digits_value(t.subrange(0, i)) <= digits_value(t),
    decreases t.len() - i,
{
    if i < t.len() {
        lemma_digits_grow(t, i + 1);
        let a = t.subrange(0, i + 1);
        assert(a.drop_last() =~= t.subrange(0, i));
    } else {
        assert(t.subrange(0, i) =~= t);
    }
}

/// The number that a decimal text states, where it is one that fits in 64 bits.
pub fn decimal_value_of(t: &String) -> (r: Option<u64>)
    ensures
        match r {
            Some(n) => decimal_value(t@) == Some(n as nat),
            None => decimal_value(t@) is None,
        },
{
    let s = t.as_str();
    let n = s.unicode_len();
    if n == 0 {
        return None;
    }
    let mut v: u64 = 0;
    let mut i: usize = 0;
    while i < n
        invariant
            n == t@.len(),
            s@ == t@,
            i <= n,
            all_digits(t@.subrange(0, i as int)),
            v as nat == digits_value(t@.subrange(0, i as int)),
        decreases n - i,
    {
        let c = s.get_char(i);
        let ghost a = t@.subrange(0, i as int + 1);
        assert(a.drop_last() =~= t@.subrange(0, i as int));
        assert(a.last() == c);
        if !('0' <= c && c <= '9') {
            assert(!all_digits(t@)) by {
                assert(t@[i as int] == c);
            }
            return None;
        }
        let d = c as u64 - '0' as u64;
        let next = match v.checked_mul(10) {
            Some(x) => x.checked_add(d),
            None => None,
        };
        match next {
            Some(x) => {
                v = x;
            },
            None => {
                proof {
                    lemma_digits_grow(t@, i as int + 1);
                }
                return None;
            },
        }
        i = i + 1;
    }
    assert(t@.subrange(0, n as int) =~= t@);
    Some(v)
}

/// The total count that a page of a listing states.
pub fn page_total_of(reply: &Json) -> (r: Option<u64>)
    ensures
        match r {
            Some(n) => page_total(reply@) == Some(n as nat),
            None => page_total(reply@) is None,
        },
{
    let key = text("totalCount");
    proof {
        reveal_strlit("totalCount");
    }
    match field(reply, &key) {
        None => Some(0),
        Some(Json::UInt(n)) => Some(*n),
        Some(Json::Number(t)) => decimal_value_of(t),
        Some(Json::Str(t)) => decimal_value_of(t),
        _ => None,
    }
}

/// The items of a page of a listing, taken out of the reply.
pub fn page_items_of(reply: Json) -> (r: Option<Vec<Json>>)
    ensures
        match r {
            Some(items) => page_items(reply@) == Some(items_v(items@)),
            None => page_items(reply@) is None,
        },
{
    let key = text("result");
    proof {
        reveal_strlit("result");
    }
    let present = match field(&reply, &key) {
        None => false,
        Some(Json::Array(_)) => true,
        Some(_) => {
            return None;
        },
    };
    if !present {
        let none: Vec<Json> = Vec::new();
        assert(items_v(none@) =~= Seq::<JsonV>::empty());
        return Some(none);
    }
    let ghost rv = reply@;
    match reply {
        Json::Object(fields) => {
            let mut fields = fields;
            let ghost fv = crate::json::fields_v(fields@);
            proof {
                crate::json::lemma_view_fields(fields@);
                assert(rv == JsonV::Object(fv));
            }
            let mut i: usize = 0;
            while i < fields.len()
                invariant
                    i <= fields@.len(),
                    fv == crate::json::fields_v(fields@),
                    rv == JsonV::Object(fv),
                    rv == reply@,
                    key@ == "result"@,
                    crate::json::lookup(fv, "result"@) matches Some(JsonV::Array(_)),
                    forall|k: int| 0 <= k < i ==> fv[k].0 != "result"@,
                decreases fields@.len() - i,
            {
                if fields[i].0 == key {
                    proof {
                        crate::json::lemma_lookup_at(fv, "result"@, i as int);
                    }
                    let ghost fi = fields@[i as int];
                    let (_, value) = fields.swap_remove(i);
                    assert(value@ == fv[i as int].1) by {
                        assert(fv[i as int] == (fi.0@, fi.1@));
                    }
                    return match value {
                        Json::Array(items) => {
                            proof {
                                lemma_view_items(items@);
                                assert(Json::Array(items)@ == JsonV::Array(view_items(items@)));
                            }
                            Some(items)
                        },
                        other => {
                            assert(other@ is Array);
                            None
                        },
                    };
                }
                i = i + 1;
            }
            proof {
                crate::json::lemma_lookup_none(fv, "result"@);
            }
            None
        },
        _ => None,
    }
}

/// Appends a page of a listing of `total` items in all to the items collected so
/// far. An empty page that comes before the total is reached means the listing
/// ended early: it is refused, with nothing appended, and is never taken as the
/// absence of what was searched. Otherwise the page is appended, and the answer
/// tells whether the listing is complete.
pub fn append_page(result: &mut Vec<Json>, page: Vec<Json>, total: u64) -> (r: Result<bool, ProvisionError>)
    ensures
        match appended(items_v(old(result)@), items_v(page@), total as nat) {
            Ok((items, done)) => r == Ok::<bool, ProvisionError>(done) && items_v(final(result)@) == items,
            Err(e) => r == Err::<bool, ProvisionError>(e) && final(result)@ == old(result)@,
        },
        r is Ok ==> final(result)@ == old(result)@ + page@,
{
    if page.len() == 0 && (result.len() as u64) < total {
        return Err(ProvisionError::IncompleteListing);
    }
    let mut page = page;
    let ghost before = result@;
    let ghost added = page@;
    result.append(&mut page);
    assert(items_v(result@) =~= items_v(before) + items_v(added));
    Ok(result.len() as u64 >= total)
}

} // verus!
