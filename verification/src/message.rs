//! Messages exchanged between agents, and the subjects they travel on.

use crate::address::{Address, AddressView};
use vstd::prelude::*;

verus! {

/// A message from one address to another.
#[derive(Debug)]
pub struct Message {
    pub from: Address,
    pub to: Address,
    pub body: String,
}

/// The subject that messages to `a` are published on:
/// `top-level-domain.second-level-domain.name`.
pub open spec fn subject_of(a: AddressView) -> Seq<char> {
    a.top_level_domain + seq!['.'] + a.second_level_domain + seq!['.'] + a.name
}

/// The subject that messages to `address` are published on.
pub fn subject_for_address(address: &Address) -> (res: String)
    ensures
        res@ == subject_of(address@),
{
    let mut subject = address.top_level_domain.clone();
    subject.append(".");
    subject.append(address.second_level_domain.as_str());
    subject.append(".");
    subject.append(address.name.as_str());
    proof {
        reveal_strlit(".");
    }
    assert(subject@ =~= subject_of(address@));
    subject
}

/// What sending `body` from `from` to `to` puts on the wire: the subject of
/// the recipient, and the message itself.
pub fn prepare_send(from: &Address, to: Address, body: String) -> (res: (String, Message))
    ensures
        res.0@ == subject_of(to@),
        res.1.from@ == from@,
        res.1.to@ == to@,
        res.1.body@ == body@,
{
    let subject = subject_for_address(&to);
    let message = Message { from: from.clone(), to, body };
    (subject, message)
}

/// `s` holds no `.`.
pub open spec fn has_no_dot(s: Seq<char>) -> bool {
    forall|i: int| 0 <= i < s.len() ==> #[trigger] s[i] != '.'
}

/// `p` and `q` are the positions of the only two dots in `s`.
pub open spec fn dots_at(s: Seq<char>, p: int, q: int) -> bool {
    &&& 0 <= p < q < s.len()
    &&& s[p] == '.'
    &&& s[q] == '.'
    &&& forall|k: int| 0 <= k < s.len() && #[trigger] s[k] == '.' ==> k == p || k == q
}

proof fn lemma_subject_dots(a: AddressView)
    requires
        has_no_dot(a.name),
        has_no_dot(a.second_level_domain),
        has_no_dot(a.top_level_domain),
    ensures
        dots_at(
            subject_of(a),
            a.top_level_domain.len() as int,
            (a.top_level_domain.len() + 1 + a.second_level_domain.len()) as int,
        ),
{
    let s = subject_of(a);
    let p = a.top_level_domain.len() as int;
    let q = p + 1 + a.second_level_domain.len();
    assert(s[p] == '.');
    assert(s[q] == '.');
    assert forall|k: int| 0 <= k < s.len() && #[trigger] s[k] == '.' implies k == p || k == q by {
        if k < p {
            assert(s[k] == a.top_level_domain[k]);
        } else if p < k < q {
            assert(s[k] == a.second_level_domain[k - p - 1]);
        } else if k > q {
            assert(s[k] == a.name[k - q - 1]);
        }
    }
}

/// Different addresses whose parts hold no `.` are published on different
/// subjects: a message never reaches an agent it was not sent to.
pub proof fn lemma_subject_injective(a: AddressView, b: AddressView)
    requires
        has_no_dot(a.name),
        has_no_dot(a.second_level_domain),
        has_no_dot(a.top_level_domain),
        has_no_dot(b.name),
        has_no_dot(b.second_level_domain),
        has_no_dot(b.top_level_domain),
        subject_of(a) == subject_of(b),
    ensures
        a == b,
{
    let s = subject_of(a);
    lemma_subject_dots(a);
    lemma_subject_dots(b);
    let pa = a.top_level_domain.len() as int;
    let qa = pa + 1 + a.second_level_domain.len();
    let pb = b.top_level_domain.len() as int;
    let qb = pb + 1 + b.second_level_domain.len();
    assert(s[pb] == '.' && s[qb] == '.');
    assert(pa == pb && qa == qb);
    assert(a.top_level_domain =~= s.subrange(0, pa));
    assert(b.top_level_domain =~= s.subrange(0, pa));
    assert(a.second_level_domain =~= s.subrange(pa + 1, qa));
    assert(b.second_level_domain =~= s.subrange(pa + 1, qa));
    assert(a.name =~= s.subrange(qa + 1, s.len() as int));
    assert(b.name =~= s.subrange(qa + 1, s.len() as int));
}

} // verus!
