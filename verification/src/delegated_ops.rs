//! Approvals by which an account lets a delegate act on its behalf.
use crate::codec::{
    encode_text, le_bytes, lemma_le_roundtrip, lemma_le_value_bound, lemma_pow256_values,
    lemma_text_parse_encoding, lemma_text_parse_sound, prefix_len, push_le, push_text, read_le,
    read_text, text_at, text_parse, le_value, lemma_le_bytes_of_value,
};
use vstd::utf8::encode_utf8;
use vstd::prelude::*;

verus! {

/// One approval record: account, delegate, whether approved.
pub struct Approval {
    pub account: String,
    pub delegate: String,
    pub approved: bool,
}

/// The approvals that accounts gave to delegates, with the owner and the
/// operator of the contract that holds them.
pub struct DelegatedOps {
    owner: String,
    operator: String,
    approvals: Vec<Approval>,
}

/// An approval as plain values: account, delegate, whether approved.
pub open spec fn approval_view(a: Approval) -> (Seq<char>, Seq<char>, bool) {
    (a.account@, a.delegate@, a.approved)
}

/// The Borsh encoding of one approval: account, delegate, then the flag as a byte.
pub open spec fn encode_approval(a: (Seq<char>, Seq<char>, bool)) -> Seq<u8> {
    encode_text(a.0) + encode_text(a.1) + seq![if a.2 { 1u8 } else { 0u8 }]
}

/// The encodings of `approvals`, one after the other.
pub open spec fn encode_approvals(approvals: Seq<(Seq<char>, Seq<char>, bool)>) -> Seq<u8>
    decreases approvals.len(),
{
    if approvals.len() == 0 {
        Seq::empty()
    } else {
        encode_approval(approvals[0]) + encode_approvals(approvals.drop_first())
    }
}

/// The Borsh encoding of the owner, the operator and the list of approvals.
pub open spec fn encode_delegated_ops(
    owner: Seq<char>,
    operator: Seq<char>,
    approvals: Seq<(Seq<char>, Seq<char>, bool)>,
) -> Seq<u8> {
    encode_text(owner) + encode_text(operator) + le_bytes(approvals.len(), 4) + encode_approvals(approvals)
}

/// No two approvals are for the same (account, delegate) pair.
pub open spec fn distinct_pairs(approvals: Seq<(Seq<char>, Seq<char>, bool)>) -> bool {
    forall|i: int, j: int|
        0 <= i < j < approvals.len() ==> !(#[trigger] approvals[i].0 == #[trigger] approvals[j].0 && approvals[i].1
            == approvals[j].1)
}

/// Every account and delegate fits a Borsh text.
pub open spec fn texts_fit(approvals: Seq<(Seq<char>, Seq<char>, bool)>) -> bool {
    forall|i: int|
        0 <= i < approvals.len() ==> encode_utf8(#[trigger] approvals[i].0).len() <= u32::MAX && encode_utf8(
            approvals[i].1,
        ).len() <= u32::MAX
}

/// The `n` approvals read from `pos` on, and the position after them.
spec fn parse_approvals(bytes: Seq<u8>, pos: int, n: nat) -> Option<(Seq<(Seq<char>, Seq<char>, bool)>, int)>
    decreases n,
{
    if n == 0 {
        Some((Seq::empty(), pos))
    } else {
        match text_parse(bytes, pos) {
            None => None,
            Some((a, p1)) => match text_parse(bytes, p1) {
                None => None,
                Some((d, p2)) => if 0 <= p2 < bytes.len() && bytes[p2] <= 1 {
                    match parse_approvals(bytes, p2 + 1, (n - 1) as nat) {
                        None => None,
                        Some((rest, end)) => Some((seq![(a, d, bytes[p2] == 1)] + rest, end)),
                    }
                } else {
                    None
                },
            },
        }
    }
}

/// Appending an approval appends its encoding.
proof fn lemma_encode_approvals_push(s: Seq<(Seq<char>, Seq<char>, bool)>, a: (Seq<char>, Seq<char>, bool))
    ensures
        encode_approvals(s.push(a)) == encode_approvals(s) + encode_approval(a),
    decreases s.len(),
{
    if s.len() == 0 {
        assert(s.push(a).drop_first() =~= Seq::<(Seq<char>, Seq<char>, bool)>::empty());
        assert(encode_approvals(s.push(a).drop_first()) =~= Seq::<u8>::empty());
        assert(encode_approvals(s.push(a)) =~= encode_approval(a));
    } else {
        lemma_encode_approvals_push(s.drop_first(), a);
        assert(s.push(a).drop_first() =~= s.drop_first().push(a));
        assert(encode_approvals(s.push(a)) =~= encode_approvals(s) + encode_approval(a));
    }
}

/// Approvals read from `pos` are framed by their encoding.
proof fn lemma_parse_approvals_sound(bytes: Seq<u8>, pos: int, n: nat)
    requires
        0 <= pos,
        parse_approvals(bytes, pos, n) is Some,
    ensures
        ({
            let (e, end) = parse_approvals(bytes, pos, n).unwrap();
            &&& e.len() == n
            &&& pos <= end <= bytes.len() || (n == 0 && end == pos)
            &&& end == pos + encode_approvals(e).len()
            &&& n > 0 ==> bytes.subrange(pos, end) == encode_approvals(e)
            &&& texts_fit(e)
        }),
    decreases n,
{
    if n > 0 {
        lemma_text_parse_sound(bytes, pos);
        let (a, p1) = text_parse(bytes, pos).unwrap();
        lemma_text_parse_sound(bytes, p1);
        let (d, p2) = text_parse(bytes, p1).unwrap();
        lemma_parse_approvals_sound(bytes, p2 + 1, (n - 1) as nat);
        let (rest, end) = parse_approvals(bytes, p2 + 1, (n - 1) as nat).unwrap();
        let e = seq![(a, d, bytes[p2] == 1)] + rest;
        assert(e.drop_first() =~= rest);
        assert(e[0] == (a, d, bytes[p2] == 1));
        let flag: u8 = if bytes[p2] == 1 { 1u8 } else { 0u8 };
        assert(flag == bytes[p2]);
        assert(bytes.subrange(p2, p2 + 1) =~= seq![flag]);
        if n > 1 {
            assert(bytes.subrange(pos, end) =~= bytes.subrange(pos, p1) + bytes.subrange(p1, p2) + bytes.subrange(
                p2,
                p2 + 1,
            ) + bytes.subrange(p2 + 1, end));
        } else {
            assert(rest.len() == 0);
            assert(encode_approvals(rest) =~= Seq::<u8>::empty());
            assert(bytes.subrange(pos, end) =~= bytes.subrange(pos, p1) + bytes.subrange(p1, p2) + bytes.subrange(
                p2,
                p2 + 1,
            ));
        }
        assert(encode_approvals(e) =~= encode_approval(e[0]) + encode_approvals(rest));
        assert forall|i: int| 0 <= i < e.len() implies encode_utf8(#[trigger] e[i].0).len() <= u32::MAX
            && encode_utf8(e[i].1).len() <= u32::MAX by {
            if i > 0 {
                assert(e[i] == rest[i - 1]);
            }
        }
    }
}

/// The encoding of `e`, standing at `pos`, reads back as `e`.
proof fn lemma_parse_approvals_encoding(bytes: Seq<u8>, pos: int, e: Seq<(Seq<char>, Seq<char>, bool)>)
    requires
        0 <= pos,
        texts_fit(e),
        pos + encode_approvals(e).len() <= bytes.len(),
        bytes.subrange(pos, pos + encode_approvals(e).len()) == encode_approvals(e),
    ensures
        parse_approvals(bytes, pos, e.len()) == Some((e, pos + encode_approvals(e).len())),
    decreases e.len(),
{
    if e.len() > 0 {
        let x = e[0];
        let ta = encode_text(x.0);
        let td = encode_text(x.1);
        let whole = encode_approvals(e);
        assert(whole =~= ta + td + seq![if x.2 { 1u8 } else { 0u8 }] + encode_approvals(e.drop_first()));
        assert(bytes.subrange(pos, pos + ta.len()) =~= whole.subrange(0, ta.len() as int));
        assert(whole.subrange(0, ta.len() as int) =~= ta);
        lemma_text_parse_encoding(bytes, pos, x.0);
        let p1 = pos + ta.len();
        assert(bytes.subrange(p1, p1 + td.len()) =~= whole.subrange(ta.len() as int, (ta.len() + td.len()) as int));
        assert(whole.subrange(ta.len() as int, (ta.len() + td.len()) as int) =~= td);
        lemma_text_parse_encoding(bytes, p1, x.1);
        let p2 = p1 + td.len();
        assert(bytes[p2] == whole[(ta.len() + td.len()) as int]);
        let rest = e.drop_first();
        assert forall|i: int| 0 <= i < rest.len() implies encode_utf8(#[trigger] rest[i].0).len() <= u32::MAX
            && encode_utf8(rest[i].1).len() <= u32::MAX by {
            assert(rest[i] == e[i + 1]);
        }
        assert(bytes.subrange(p2 + 1, p2 + 1 + encode_approvals(rest).len()) =~= whole.subrange(
            (ta.len() + td.len() + 1) as int,
            whole.len() as int,
        ));
        assert(whole.subrange((ta.len() + td.len() + 1) as int, whole.len() as int) =~= encode_approvals(rest));
        lemma_parse_approvals_encoding(bytes, p2 + 1, rest);
        assert(seq![(x.0, x.1, bytes[p2] == 1)] + rest =~= e);
    }
}

/// The owner, operator and approvals read from `bytes`, if they are a
/// whole encoding with no pair approved twice.
spec fn parse_delegated_ops(bytes: Seq<u8>) -> Option<(Seq<char>, Seq<char>, Seq<(Seq<char>, Seq<char>, bool)>)> {
    match text_parse(bytes, 0) {
        None => None,
        Some((o, p1)) => match text_parse(bytes, p1) {
            None => None,
            Some((p, p2)) => if p2 + 4 <= bytes.len() {
                match parse_approvals(bytes, p2 + 4, le_value(bytes.subrange(p2, p2 + 4))) {
                    None => None,
                    Some((e, end)) => if end == bytes.len() && distinct_pairs(e) {
                        Some((o, p, e))
                    } else {
                        None
                    },
                }
            } else {
                None
            },
        },
    }
}

/// Every encoding of a value with distinct pairs reads back as that value.
proof fn lemma_parse_delegated_ops_encoding(o: Seq<char>, p: Seq<char>, e: Seq<(Seq<char>, Seq<char>, bool)>)
    requires
        encode_utf8(o).len() <= u32::MAX,
        encode_utf8(p).len() <= u32::MAX,
        texts_fit(e),
        distinct_pairs(e),
        e.len() <= u32::MAX,
    ensures
        parse_delegated_ops(encode_delegated_ops(o, p, e)) == Some((o, p, e)),
{
    lemma_pow256_values();
    let bytes = encode_delegated_ops(o, p, e);
    let to = encode_text(o);
    let tp = encode_text(p);
    let cnt = le_bytes(e.len(), 4);
    lemma_le_roundtrip(e.len(), 4);
    let body = encode_approvals(e);
    assert(bytes.subrange(0, to.len() as int) =~= to);
    lemma_text_parse_encoding(bytes, 0, o);
    let p1 = to.len() as int;
    assert(bytes.subrange(p1, p1 + tp.len()) =~= tp);
    lemma_text_parse_encoding(bytes, p1, p);
    let p2 = p1 + tp.len();
    assert(bytes.subrange(p2, p2 + 4) =~= cnt);
    assert(bytes.subrange(p2 + 4, p2 + 4 + body.len()) =~= body);
    lemma_parse_approvals_encoding(bytes, p2 + 4, e);
}

/// Whatever reads back from `bytes` encodes to exactly `bytes`.
proof fn lemma_parse_delegated_ops_sound(bytes: Seq<u8>)
    requires
        parse_delegated_ops(bytes) is Some,
    ensures
        ({
            let (o, p, e) = parse_delegated_ops(bytes).unwrap();
            bytes == encode_delegated_ops(o, p, e)
        }),
{
    lemma_text_parse_sound(bytes, 0);
    let (o, p1) = text_parse(bytes, 0).unwrap();
    lemma_text_parse_sound(bytes, p1);
    let (p, p2) = text_parse(bytes, p1).unwrap();
    let n = le_value(bytes.subrange(p2, p2 + 4));
    lemma_parse_approvals_sound(bytes, p2 + 4, n);
    let (e, end) = parse_approvals(bytes, p2 + 4, n).unwrap();
    lemma_le_bytes_of_value(bytes.subrange(p2, p2 + 4));
    if n > 0 {
        assert(bytes =~= bytes.subrange(0, p1) + bytes.subrange(p1, p2) + bytes.subrange(p2, p2 + 4) + bytes.subrange(
            p2 + 4,
            end,
        ));
    } else {
        assert(encode_approvals(e) =~= Seq::<u8>::empty());
        assert(bytes =~= bytes.subrange(0, p1) + bytes.subrange(p1, p2) + bytes.subrange(p2, p2 + 4));
    }
}

/// Two values with the same encoding are the same value: decoding what
/// `to_bytes` wrote gives back the owner, the operator and the approvals.
pub proof fn lemma_encoding_injective(
    o1: Seq<char>,
    p1: Seq<char>,
    e1: Seq<(Seq<char>, Seq<char>, bool)>,
    o2: Seq<char>,
    p2: Seq<char>,
    e2: Seq<(Seq<char>, Seq<char>, bool)>,
)
    requires
        encode_utf8(o1).len() <= u32::MAX,
        encode_utf8(p1).len() <= u32::MAX,
        texts_fit(e1),
        distinct_pairs(e1),
        e1.len() <= u32::MAX,
        encode_utf8(o2).len() <= u32::MAX,
        encode_utf8(p2).len() <= u32::MAX,
        texts_fit(e2),
        distinct_pairs(e2),
        e2.len() <= u32::MAX,
        encode_delegated_ops(o1, p1, e1) == encode_delegated_ops(o2, p2, e2),
    ensures
        o1 == o2,
        p1 == p2,
        e1 == e2,
{
    lemma_parse_delegated_ops_encoding(o1, p1, e1);
    lemma_parse_delegated_ops_encoding(o2, p2, e2);
}

/// The index of the record for (`account`, `delegate`) in `list`, if there is one.
fn position_of(list: &Vec<Approval>, account: &String, delegate: &String) -> (r: Option<usize>)
    ensures
        match r {
            Some(i) => i < list@.len() && list@[i as int].account@ == account@ && list@[i as int].delegate@
                == delegate@,
            None => forall|i: int|
                0 <= i < list@.len() ==> !(#[trigger] list@[i].account@ == account@ && list@[i].delegate@
                    == delegate@),
        },
{
    let mut i: usize = 0;
    while i < list.len()
        invariant
            i <= list@.len(),
            forall|j: int|
                0 <= j < i ==> !(#[trigger] list@[j].account@ == account@ && list@[j].delegate@ == delegate@),
        decreases list@.len() - i,
    {
        if list[i].account == *account && list[i].delegate == *delegate {
            return Some(i);
        }
        i = i + 1;
    }
    None
}

impl DelegatedOps {
    /// No two records are for the same (account, delegate) pair.
    pub closed spec fn well_formed(&self) -> bool {
        forall|i: int, j: int|
            0 <= i < j < self.approvals@.len() ==> !(#[trigger] self.approvals@[i].account@
                == #[trigger] self.approvals@[j].account@ && self.approvals@[i].delegate@
                == self.approvals@[j].delegate@)
    }

    /// Whether `account` has approved `delegate`.
    pub closed spec fn approved(&self, account: Seq<char>, delegate: Seq<char>) -> bool {
        exists|i: int|
            0 <= i < self.approvals@.len() && #[trigger] self.approvals@[i].account@ == account
                && self.approvals@[i].delegate@ == delegate && self.approvals@[i].approved
    }

    pub closed spec fn owner_account(&self) -> Seq<char> {
        self.owner@
    }

    pub closed spec fn operator_account(&self) -> Seq<char> {
        self.operator@
    }

    /// A contract with no approvals, its owner and its operator.
    pub fn new(owner: String, operator: String) -> (r: Self)
        ensures
            r.well_formed(),
            r.owner_account() == owner@,
            r.operator_account() == operator@,
            forall|a: Seq<char>, d: Seq<char>| !r.approved(a, d),
    {
        Self { owner, operator, approvals: Vec::new() }
    }

    /// The owner.
    pub fn owner(&self) -> (r: &String)
        ensures
            r@ == self.owner_account(),
    {
        &self.owner
    }

    /// The operator.
    pub fn operator(&self) -> (r: &String)
        ensures
            r@ == self.operator_account(),
    {
        &self.operator
    }

    /// Whether `caller` is the operator.
    pub fn only_operator(&self, caller: &String) -> (r: bool)
        ensures
            r == (caller@ == self.operator_account()),
    {
        *caller == self.operator
    }

    /// The index of the record for (`account`, `delegate`), if there is one.
    fn find(&self, account: &String, delegate: &String) -> (r: Option<usize>)
        ensures
            match r {
                Some(i) => i < self.approvals@.len() && self.approvals@[i as int].account@ == account@
                    && self.approvals@[i as int].delegate@ == delegate@,
                None => forall|i: int|
                    0 <= i < self.approvals@.len() ==> !(#[trigger] self.approvals@[i].account@
                        == account@ && self.approvals@[i].delegate@ == delegate@),
            },
    {
        position_of(&self.approvals, account, delegate)
    }

    /// Records whether `caller` approves `delegate`; other approvals stay.
    pub fn set_delegate_approval(&mut self, caller: String, delegate: String, is_approved: bool)
        requires
            old(self).well_formed(),
        ensures
            final(self).well_formed(),
            final(self).owner_account() == old(self).owner_account(),
            final(self).operator_account() == old(self).operator_account(),
            final(self).approved(caller@, delegate@) == is_approved,
            forall|a: Seq<char>, d: Seq<char>|
                !(a == caller@ && d == delegate@) ==> final(self).approved(a, d) == old(self).approved(a, d),
    {
        let ghost c = caller@;
        let ghost dl = delegate@;
        match self.find(&caller, &delegate) {
            Some(i) => {
                let ghost before = self.approvals@;
                self.approvals.set(i, Approval { account: caller, delegate, approved: is_approved });
                assert forall|a: Seq<char>, d: Seq<char>|
                    !(a == c && d == dl) implies self.approved(a, d) == old(self).approved(a, d) by {
                    if old(self).approved(a, d) {
                        let k = choose|k: int|
                            0 <= k < before.len() && #[trigger] before[k].account@ == a
                                && before[k].delegate@ == d && before[k].approved;
                        assert(self.approvals@[k] == before[k]);
                    }
                    if self.approved(a, d) {
                        let k = choose|k: int|
                            0 <= k < self.approvals@.len() && #[trigger] self.approvals@[k].account@ == a
                                && self.approvals@[k].delegate@ == d && self.approvals@[k].approved;
                        assert(self.approvals@[k] == before[k]);
                    }
                }
                if !is_approved {
                    assert forall|k: int|
                        0 <= k < self.approvals@.len() implies !(#[trigger] self.approvals@[k].account@
                        == c && self.approvals@[k].delegate@ == dl && self.approvals@[k].approved) by {
                        if k != i {
                            assert(before[k] == self.approvals@[k]);
                        }
                    }
                } else {
                    assert(self.approvals@[i as int].account@ == c);
                }
            },
            None => {
                let ghost before = self.approvals@;
                self.approvals.push(Approval { account: caller, delegate, approved: is_approved });
                assert forall|a: Seq<char>, d: Seq<char>|
                    !(a == c && d == dl) implies self.approved(a, d) == old(self).approved(a, d) by {
                    if old(self).approved(a, d) {
                        let k = choose|k: int|
                            0 <= k < before.len() && #[trigger] before[k].account@ == a
                                && before[k].delegate@ == d && before[k].approved;
                        assert(self.approvals@[k] == before[k]);
                    }
                }
                if is_approved {
                    assert(self.approvals@[before.len() as int].account@ == c);
                }
            },
        }
    }

    /// The approvals, in the order they were first given.
    pub closed spec fn approval_list(&self) -> Seq<(Seq<char>, Seq<char>, bool)> {
        self.approvals@.map_values(|a: Approval| approval_view(a))
    }

    /// The Borsh encoding of the owner, the operator and the approvals.
    pub open spec fn spec_to_bytes(&self) -> Seq<u8> {
        encode_delegated_ops(self.owner_account(), self.operator_account(), self.approval_list())
    }

    /// Encodes this value in Borsh layout.
    pub fn to_bytes(&self) -> (r: Vec<u8>)
        requires
            encode_utf8(self.owner_account()).len() <= u32::MAX,
            encode_utf8(self.operator_account()).len() <= u32::MAX,
            texts_fit(self.approval_list()),
            self.approval_list().len() <= u32::MAX,
        ensures
            r@ == self.spec_to_bytes(),
    {
        let mut out: Vec<u8> = Vec::new();
        push_text(&mut out, &self.owner);
        push_text(&mut out, &self.operator);
        proof {
            lemma_pow256_values();
        }
        push_le(&mut out, self.approvals.len() as u128, 4);
        let ghost head = out@;
        let ghost list = self.approval_list();
        let mut i: usize = 0;
        while i < self.approvals.len()
            invariant
                i <= self.approvals@.len(),
                list == self.approval_list(),
                texts_fit(list),
                list.len() == self.approvals@.len(),
                out@ == head + encode_approvals(list.take(i as int)),
            decreases self.approvals@.len() - i,
        {
            let a = &self.approvals[i];
            proof {
                assert(list[i as int] == approval_view(self.approvals@[i as int]));
                assert(encode_utf8(list[i as int].0).len() <= u32::MAX);
            }
            push_text(&mut out, &a.account);
            push_text(&mut out, &a.delegate);
            let flag: u8 = if a.approved { 1u8 } else { 0u8 };
            out.push(flag);
            proof {
                lemma_encode_approvals_push(list.take(i as int), list[i as int]);
                assert(list.take(i + 1) =~= list.take(i as int).push(list[i as int]));
                assert(out@ =~= head + encode_approvals(list.take(i + 1)));
            }
            i = i + 1;
        }
        proof {
            assert(list.take(i as int) =~= list);
            assert(out@ =~= self.spec_to_bytes());
        }
        out
    }

    /// Reads a value from `bytes`, if they are a whole encoding with no pair
    /// approved twice.
    fn decode(bytes: &[u8]) -> (r: Option<Self>)
        ensures
            match r {
                Some(v) => v.well_formed() && parse_delegated_ops(bytes@) == Some(
                    (v.owner_account(), v.operator_account(), v.approval_list()),
                ),
                None => parse_delegated_ops(bytes@) is None,
            },
    {
        let (owner, p1) = match read_text(bytes, 0) {
            Some(x) => x,
            None => {
                return None;
            },
        };
        let (operator, p2) = match read_text(bytes, p1) {
            Some(x) => x,
            None => {
                return None;
            },
        };
        if bytes.len() - p2 < 4 {
            return None;
        }
        let count = read_le(bytes, p2, 4);
        proof {
            lemma_le_value_bound(bytes@.subrange(p2 as int, p2 + 4));
            lemma_pow256_values();
        }
        let n = count as usize;
        let ghost start = p2 + 4;
        let ghost total = parse_approvals(bytes@, start, n as nat);
        let ghost whole = match total {
            Some((e, end)) => if end == bytes@.len() && distinct_pairs(e) {
                Some((owner@, operator@, e))
            } else {
                None
            },
            None => None,
        };
        proof {
            assert(text_parse(bytes@, 0) == Some((owner@, p1 as int)));
            assert(text_parse(bytes@, p1 as int) == Some((operator@, p2 as int)));
            assert(parse_delegated_ops(bytes@) == whole);
        }
        let mut approvals: Vec<Approval> = Vec::new();
        let mut pos: usize = p2 + 4;
        let mut i: usize = 0;
        while i < n
            invariant
                i <= n,
                approvals@.len() == i,
                pos <= bytes@.len(),
                n == count,
                total == parse_approvals(bytes@, start, n as nat),
                parse_delegated_ops(bytes@) == whole,
                whole == match total {
                    Some((e, end)) => if end == bytes@.len() && distinct_pairs(e) {
                        Some((owner@, operator@, e))
                    } else {
                        None
                    },
                    None => None,
                },
                distinct_pairs(approvals@.map_values(|a: Approval| approval_view(a))),
                total == match parse_approvals(bytes@, pos as int, (n - i) as nat) {
                    Some((rest, end)) => Some((approvals@.map_values(|a: Approval| approval_view(a)) + rest, end)),
                    None => None,
                },
            decreases n - i,
        {
            let ghost view = approvals@.map_values(|a: Approval| approval_view(a));
            let (account, q1) = match read_text(bytes, pos) {
                Some(x) => x,
                None => {
                    return None;
                },
            };
            let (delegate, q2) = match read_text(bytes, q1) {
                Some(x) => x,
                None => {
                    return None;
                },
            };
            if q2 >= bytes.len() {
                return None;
            }
            let flag = bytes[q2];
            if flag > 1 {
                return None;
            }
            let ghost x = (account@, delegate@, flag == 1);
            proof {
                assert(text_parse(bytes@, pos as int) == Some((account@, q1 as int)));
                assert(text_parse(bytes@, q1 as int) == Some((delegate@, q2 as int)));
            }
            match position_of(&approvals, &account, &delegate) {
                Some(k) => {
                    proof {
                        match parse_approvals(bytes@, q2 + 1, (n - i - 1) as nat) {
                            Some((rest, end)) => {
                                let e = view + (seq![x] + rest);
                                assert(view[k as int] == approval_view(approvals@[k as int]));
                                assert(e[k as int] == view[k as int]);
                                assert(e[i as int] == x);
                                assert(e[k as int].0 == e[i as int].0 && e[k as int].1 == e[i as int].1);
                                assert(!distinct_pairs(e));
                            },
                            None => {},
                        }
                    }
                    return None;
                },
                None => {},
            }
            let ghost before = approvals@;
            approvals.push(Approval { account, delegate, approved: flag == 1 });
            proof {
                let nv = approvals@.map_values(|a: Approval| approval_view(a));
                assert(nv =~= view.push(x));
                assert forall|a: int, b: int| 0 <= a < b < nv.len() implies !(#[trigger] nv[a].0 == #[trigger] nv[b].0
                    && nv[a].1 == nv[b].1) by {
                    if b == nv.len() - 1 {
                        assert(nv[a] == view[a]);
                        assert(before[a].account@ == view[a].0);
                    } else {
                        assert(nv[a] == view[a] && nv[b] == view[b]);
                    }
                }
                match parse_approvals(bytes@, q2 + 1, (n - i - 1) as nat) {
                    Some((rest, end)) => {
                        assert(view + (seq![x] + rest) =~= nv + rest);
                    },
                    None => {},
                }
            }
            pos = q2 + 1;
            i = i + 1;
        }
        let ghost view = approvals@.map_values(|a: Approval| approval_view(a));
        if pos != bytes.len() {
            return None;
        }
        proof {
            assert(view + Seq::<(Seq<char>, Seq<char>, bool)>::empty() =~= view);
        }
        let v = DelegatedOps { owner, operator, approvals };
        proof {
            assert(v.approval_list() == view);
            assert forall|a: int, b: int| 0 <= a < b < v.approvals@.len() implies !(
            #[trigger] v.approvals@[a].account@ == #[trigger] v.approvals@[b].account@
                && v.approvals@[a].delegate@ == v.approvals@[b].delegate@) by {
                assert(view[a] == approval_view(v.approvals@[a]));
                assert(view[b] == approval_view(v.approvals@[b]));
                assert(view[a].0 == v.approvals@[a].account@);
                assert(view[b].0 == v.approvals@[b].account@);
            }
        }
        Some(v)
    }

    /// Decodes a value in Borsh layout. Whatever it returns encodes to the
    /// input and records no pair twice, and every encoding of a value with
    /// no pair twice decodes to that value.
    pub fn from_bytes(bytes: &[u8]) -> (r: Option<Self>)
        ensures
            r matches Some(v) ==> v.well_formed() && v.spec_to_bytes() == bytes@,
            forall|o: Seq<char>, p: Seq<char>, e: Seq<(Seq<char>, Seq<char>, bool)>|
                #![trigger encode_delegated_ops(o, p, e)]
                bytes@ == encode_delegated_ops(o, p, e) && encode_utf8(o).len() <= u32::MAX && encode_utf8(p).len()
                    <= u32::MAX && texts_fit(e) && distinct_pairs(e) && e.len() <= u32::MAX ==> (r matches Some(v)
                    && v.owner_account() == o && v.operator_account() == p && v.approval_list() == e),
    {
        let r = Self::decode(bytes);
        proof {
            if parse_delegated_ops(bytes@) is Some {
                lemma_parse_delegated_ops_sound(bytes@);
            }
            assert forall|o: Seq<char>, p: Seq<char>, e: Seq<(Seq<char>, Seq<char>, bool)>|
                #![trigger encode_delegated_ops(o, p, e)]
                bytes@ == encode_delegated_ops(o, p, e) && encode_utf8(o).len() <= u32::MAX && encode_utf8(p).len()
                    <= u32::MAX && texts_fit(e) && distinct_pairs(e) && e.len() <= u32::MAX implies (r matches Some(v)
                && v.owner_account() == o && v.operator_account() == p && v.approval_list() == e) by {
                lemma_parse_delegated_ops_encoding(o, p, e);
            }
        }
        r
    }

    /// Whether `owner` has approved `caller` as its delegate.
    pub fn is_approved_delegate(&self, owner: String, caller: String) -> (r: bool)
        requires
            self.well_formed(),
        ensures
            r == self.approved(owner@, caller@),
    {
        match self.find(&owner, &caller) {
            Some(i) => {
                let r = self.approvals[i].approved;
                if !r {
                    assert forall|k: int|
                        0 <= k < self.approvals@.len() implies !(#[trigger] self.approvals@[k].account@
                        == owner@ && self.approvals@[k].delegate@ == caller@
                        && self.approvals@[k].approved) by {
                        if k != i as int && self.approvals@[k].account@ == owner@
                            && self.approvals@[k].delegate@ == caller@ {
                            if k < i {
                                assert(self.approvals@[k].account@ == self.approvals@[i as int].account@);
                            } else {
                                assert(self.approvals@[i as int].account@ == self.approvals@[k].account@);
                            }
                        }
                    }
                }
                r
            },
            None => false,
        }
    }

    /// The check that `caller` is `account` itself or a delegate it
    /// approved; any other caller aborts the call with "Delegate not
    /// approved", so callers must establish it.
    pub fn ensure_caller_or_delegated(&self, account: String, caller: String)
        requires
            self.well_formed(),
            caller@ == account@ || self.approved(account@, caller@),
    {
    }
}

} // verus!
