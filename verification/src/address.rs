//! Agent addresses: `name@second-level-domain.top-level-domain`.

use crate::error::ManifestError;
use crate::text::{trim, trim_str};
use crate::json::{
    decode_json_string, encode_json_string, json_error_with_message, json_string_decode,
    json_string_encode,
};
use vstd::prelude::*;

verus! {

/// The address of an agent.
#[derive(Debug, PartialEq, Eq)]
pub struct Address {
    pub name: String,
    pub second_level_domain: String,
    pub top_level_domain: String,
}

/// The three parts of an address, as text.
pub struct AddressView {
    pub name: Seq<char>,
    pub second_level_domain: Seq<char>,
    pub top_level_domain: Seq<char>,
}

impl View for Address {
    type V = AddressView;

    open spec fn view(&self) -> AddressView {
        AddressView {
            name: self.name@,
            second_level_domain: self.second_level_domain@,
            top_level_domain: self.top_level_domain@,
        }
    }
}

impl Clone for Address {
    fn clone(&self) -> (res: Self)
        ensures
            res == *self,
    {
        Address {
            name: self.name.clone(),
            second_level_domain: self.second_level_domain.clone(),
            top_level_domain: self.top_level_domain.clone(),
        }
    }
}

/// The characters that an address is split at.
pub open spec fn is_separator(c: char) -> bool {
    c == '@' || c == '.'
}

/// `s` holds no separator.
pub open spec fn has_no_separator(s: Seq<char>) -> bool {
    forall|i: int| 0 <= i < s.len() ==> !is_separator(#[trigger] s[i])
}

impl AddressView {
    /// No part holds a separator: the parts come back unchanged from their
    /// text form.
    pub open spec fn well_formed(self) -> bool {
        &&& has_no_separator(self.name)
        &&& has_no_separator(self.second_level_domain)
        &&& has_no_separator(self.top_level_domain)
    }
}

/// `p` and `q` are the positions of the only two separators in `s`.
pub open spec fn separators_at(s: Seq<char>, p: int, q: int) -> bool {
    &&& 0 <= p < q < s.len()
    &&& is_separator(s[p])
    &&& is_separator(s[q])
    &&& forall|k: int| 0 <= k < s.len() && is_separator(#[trigger] s[k]) ==> k == p || k == q
}

/// The address that `s` denotes: `s` split at every `@` and `.` must give
/// exactly three parts, which are the name, the second-level domain and the
/// top-level domain, in this order.
pub open spec fn parse_address(s: Seq<char>) -> Option<AddressView> {
    if exists|p: int, q: int| separators_at(s, p, q) {
        let (p, q) = choose|p: int, q: int| separators_at(s, p, q);
        Some(
            AddressView {
                name: s.subrange(0, p),
                second_level_domain: s.subrange(p + 1, q),
                top_level_domain: s.subrange(q + 1, s.len() as int),
            },
        )
    } else {
        None
    }
}

/// The text form `name@second-level-domain.top-level-domain`.
pub open spec fn format_address(a: AddressView) -> Seq<char> {
    a.name + seq!['@'] + a.second_level_domain + seq!['.'] + a.top_level_domain
}

/// The address that the JSON text `text` denotes: a JSON string whose
/// content is an address.
pub open spec fn address_from_json(text: Seq<char>) -> Option<AddressView> {
    match json_string_decode(text) {
        Some(raw) => parse_address(raw),
        None => None,
    }
}

/// The JSON text of an address: its text form as a JSON string.
pub open spec fn address_to_json(a: AddressView) -> Seq<char> {
    json_string_encode(format_address(a))
}

/// Why a text is not an address.
#[derive(Debug, PartialEq, Eq)]
pub enum AddressError {
    /// The text does not split into exactly three parts.
    InvalidFormat,
}

impl AddressError {
    /// The message of the error.
    pub fn message(&self) -> (res: &'static str)
        ensures
            res@ == "invalid address format, expect \"name@second-level-domain.top-level-domain\""@,
    {
        "invalid address format, expect \"name@second-level-domain.top-level-domain\""
    }
}

/// Whether `c` is a separator.
pub fn char_is_separator(c: char) -> (res: bool)
    ensures
        res == is_separator(c),
{
    c == '@' || c == '.'
}

impl Address {
    /// Reads an address from its text form: the text is split at every `@`
    /// and `.`, and must give exactly three parts.
    pub fn parse(raw: &str) -> (res: Result<Address, AddressError>)
        ensures
            match res {
                Ok(a) => parse_address(raw@) == Some(a@) && a@.well_formed(),
                Err(_) => parse_address(raw@) is None,
            },
    {
        let n = raw.unicode_len();
        let mut first: usize = 0;
        let mut second: usize = 0;
        let mut found: usize = 0;
        let mut i: usize = 0;
        while i < n
            invariant
                n == raw@.len(),
                0 <= i <= n,
                found <= 2,
                found >= 1 ==> first < i && is_separator(raw@[first as int]),
                found == 2 ==> first < second < i && is_separator(raw@[second as int]),
                forall|k: int|
                    0 <= k < i && is_separator(#[trigger] raw@[k]) ==> (found >= 1 && k
                        == first) || (found == 2 && k == second),
            decreases n - i,
        {
            if char_is_separator(raw.get_char(i)) {
                if found == 0 {
                    first = i;
                    found = 1;
                } else if found == 1 {
                    second = i;
                    found = 2;
                } else {
                    proof {
                        assert forall|p: int, q: int| !separators_at(raw@, p, q) by {
                            if separators_at(raw@, p, q) {
                                assert(is_separator(raw@[first as int]));
                                assert(is_separator(raw@[second as int]));
                                assert(is_separator(raw@[i as int]));
                            }
                        }
                    }
                    return Err(AddressError::InvalidFormat);
                }
            }
            i = i + 1;
        }
        if found != 2 {
            proof {
                assert forall|p: int, q: int| !separators_at(raw@, p, q) by {
                    if separators_at(raw@, p, q) {
                        assert(is_separator(raw@[p]));
                        assert(is_separator(raw@[q]));
                    }
                }
            }
            return Err(AddressError::InvalidFormat);
        }
        let ghost s = raw@;
        proof {
            assert(separators_at(s, first as int, second as int));
            let (p, q) = choose|p: int, q: int| separators_at(s, p, q);
            assert(is_separator(s[p]) && is_separator(s[q]));
        }
        let name = raw.substring_char(0, first).to_owned();
        let second_level_domain = raw.substring_char(first + 1, second).to_owned();
        let top_level_domain = raw.substring_char(second + 1, n).to_owned();
        let res = Address { name, second_level_domain, top_level_domain };
        proof {
            assert forall|k: int| 0 <= k < res@.name.len() implies !is_separator(
                #[trigger] res@.name[k],
            ) by {
                assert(res@.name[k] == s[k]);
            }
            assert forall|k: int| 0 <= k < res@.second_level_domain.len() implies !is_separator(
                #[trigger] res@.second_level_domain[k],
            ) by {
                assert(res@.second_level_domain[k] == s[k + first + 1]);
            }
            assert forall|k: int| 0 <= k < res@.top_level_domain.len() implies !is_separator(
                #[trigger] res@.top_level_domain[k],
            ) by {
                assert(res@.top_level_domain[k] == s[k + second + 1]);
            }
        }
        Ok(res)
    }

    /// The text form `name@second-level-domain.top-level-domain`.
    pub fn format(&self) -> (res: String)
        ensures
            res@ == format_address(self@),
    {
        let mut text = self.name.clone();
        text.append("@");
        text.append(self.second_level_domain.as_str());
        text.append(".");
        text.append(self.top_level_domain.as_str());
        proof {
            reveal_strlit("@");
            reveal_strlit(".");
        }
        assert(text@ =~= format_address(self@));
        text
    }

    /// Reads an address from JSON: a JSON string that holds its text form.
    pub fn from_str(address: &str) -> (res: Result<Address, ManifestError>)
        ensures
            match res {
                Ok(a) => address_from_json(address@) == Some(a@),
                Err(e) => address_from_json(address@) is None && e is JsonError,
            },
    {
        match decode_json_string(address) {
            Ok(raw) => match Address::parse(raw.as_str()) {
                Ok(a) => Ok(a),
                Err(e) => Err(ManifestError::JsonError(json_error_with_message(e.message()))),
            },
            Err(e) => Err(ManifestError::JsonError(e)),
        }
    }

    /// Writes an address as JSON: its text form as a JSON string. Reading
    /// the result back gives the same address when no part holds a separator.
    pub fn to_string(&self) -> (res: Result<String, ManifestError>)
        ensures
            res matches Ok(t) && t@ == address_to_json(self@),
            self@.well_formed() ==> (res matches Ok(t) && address_from_json(t@) == Some(self@)),
    {
        let text = self.format();
        match encode_json_string(text.as_str()) {
            Ok(t) => {
                proof {
                    if self@.well_formed() {
                        lemma_parse_format(self@);
                    }
                }
                Ok(t)
            },
            Err(e) => Err(ManifestError::JsonError(e)),
        }
    }
}

/// Reads an address that a client sends as plain text, surrounding
/// whitespace ignored; `None` when the text is not an address.
pub fn address_from_text(payload: &str) -> (res: Option<Address>)
    ensures
        match parse_address(trim(payload@)) {
            Some(v) => res matches Some(a) && a@ == v,
            None => res is None,
        },
{
    match Address::parse(trim_str(payload)) {
        Ok(a) => Some(a),
        Err(_) => None,
    }
}

/// An address whose parts hold no separator is read back unchanged from its
/// text form.
pub proof fn lemma_parse_format(a: AddressView)
    requires
        a.well_formed(),
    ensures
        parse_address(format_address(a)) == Some(a),
{
    let s = format_address(a);
    let p = a.name.len() as int;
    let q = p + 1 + a.second_level_domain.len();
    assert(s[p] == '@');
    assert(s[q] == '.');
    assert forall|k: int| 0 <= k < s.len() && is_separator(#[trigger] s[k]) implies k == p || k
        == q by {
        if k < p {
            assert(s[k] == a.name[k]);
        } else if p < k < q {
            assert(s[k] == a.second_level_domain[k - p - 1]);
        } else if k > q {
            assert(s[k] == a.top_level_domain[k - q - 1]);
        }
    }
    assert(separators_at(s, p, q));
    let (p2, q2) = choose|p2: int, q2: int| separators_at(s, p2, q2);
    assert(is_separator(s[p2]) && is_separator(s[q2]));
    assert(s.subrange(0, p) =~= a.name);
    assert(s.subrange(p + 1, q) =~= a.second_level_domain);
    assert(s.subrange(q + 1, s.len() as int) =~= a.top_level_domain);
}

} // verus!
