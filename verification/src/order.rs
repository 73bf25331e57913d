use crate::msg::{
    action_views, replacer_views, text_of, CallAction, CallActionView, ProtoMessageType, ReplaceInfo,
    ReplaceInfoView,
};
use crate::value::{entry_models, lemma_mapping_model, lemma_sequence_model, models, Node, Value};
use vstd::prelude::*;

verus! {

/// How one thing stands to another in an order.
#[derive(Clone, Copy, Debug, PartialEq, Eq, Structural)]
pub enum Rank {
    Less,
    Equal,
    Greater,
}

/// The order of two numbers.
pub open spec fn int_order(a: int, b: int) -> Rank {
    if a < b {
        Rank::Less
    } else if a > b {
        Rank::Greater
    } else {
        Rank::Equal
    }
}

/// The order of two strings from `from` on: character by character, and the
/// shorter one first where one is the start of the other.
pub open spec fn text_order(a: Seq<char>, b: Seq<char>, from: int) -> Rank
    decreases a.len() - from,
{
    if from < 0 || from >= a.len() || from >= b.len() {
        int_order(a.len() as int, b.len() as int)
    } else if a[from] != b[from] {
        int_order(a[from] as int, b[from] as int)
    } else {
        text_order(a, b, from + 1)
    }
}

/// The order of two byte strings from `from` on.
pub open spec fn bytes_order(a: Seq<u8>, b: Seq<u8>, from: int) -> Rank
    decreases a.len() - from,
{
    if from < 0 || from >= a.len() || from >= b.len() {
        int_order(a.len() as int, b.len() as int)
    } else if a[from] != b[from] {
        int_order(a[from] as int, b[from] as int)
    } else {
        bytes_order(a, b, from + 1)
    }
}

/// The order of two strings that may be absent: an absent one comes first.
pub open spec fn optional_text_order(a: Option<Seq<char>>, b: Option<Seq<char>>) -> Rank {
    match (a, b) {
        (None, None) => Rank::Equal,
        (None, Some(_)) => Rank::Less,
        (Some(_), None) => Rank::Greater,
        (Some(x), Some(y)) => text_order(x, y, 0),
    }
}

/// The order of two amounts that may be absent: an absent one comes first.
pub open spec fn optional_amount_order(a: Option<u128>, b: Option<u128>) -> Rank {
    match (a, b) {
        (None, None) => Rank::Equal,
        (None, Some(_)) => Rank::Less,
        (Some(_), None) => Rank::Greater,
        (Some(x), Some(y)) => int_order(x as int, y as int),
    }
}

/// The place of a node's kind among the kinds.
pub open spec fn kind_rank(n: Node) -> int {
    match n {
        Node::Bool(_) => 0,
        Node::U8(_) => 1,
        Node::U16(_) => 2,
        Node::U32(_) => 3,
        Node::U64(_) => 4,
        Node::I8(_) => 5,
        Node::I16(_) => 6,
        Node::I32(_) => 7,
        Node::I64(_) => 8,
        Node::Char(_) => 11,
        Node::String(_) => 12,
        Node::Unit => 13,
        Node::Option(_) => 14,
        Node::Newtype(_) => 15,
        Node::Sequence(_) => 16,
        Node::Mapping(_) => 17,
        Node::Bytes(_) => 18,
    }
}

/// The order of two trees: two of one kind by what they hold, two of different
/// kinds by kind.
pub open spec fn node_order(a: Node, b: Node) -> Rank
    decreases a, 0int,
{
    match (a, b) {
        (Node::Bool(x), Node::Bool(y)) => int_order(
            if x { 1 } else { 0 },
            if y { 1 } else { 0 },
        ),
        (Node::U8(x), Node::U8(y)) => int_order(x as int, y as int),
        (Node::U16(x), Node::U16(y)) => int_order(x as int, y as int),
        (Node::U32(x), Node::U32(y)) => int_order(x as int, y as int),
        (Node::U64(x), Node::U64(y)) => int_order(x as int, y as int),
        (Node::I8(x), Node::I8(y)) => int_order(x as int, y as int),
        (Node::I16(x), Node::I16(y)) => int_order(x as int, y as int),
        (Node::I32(x), Node::I32(y)) => int_order(x as int, y as int),
        (Node::I64(x), Node::I64(y)) => int_order(x as int, y as int),
        (Node::Char(x), Node::Char(y)) => int_order(x as int, y as int),
        (Node::String(x), Node::String(y)) => text_order(x, y, 0),
        (Node::Unit, Node::Unit) => Rank::Equal,
        (Node::Option(None), Node::Option(None)) => Rank::Equal,
        (Node::Option(None), Node::Option(Some(_))) => Rank::Less,
        (Node::Option(Some(_)), Node::Option(None)) => Rank::Greater,
        (Node::Option(Some(x)), Node::Option(Some(y))) => node_order(*x, *y),
        (Node::Newtype(x), Node::Newtype(y)) => node_order(*x, *y),
        (Node::Sequence(x), Node::Sequence(y)) => nodes_order(x, y, 0),
        (Node::Mapping(x), Node::Mapping(y)) => entries_order(x, y, 0),
        (Node::Bytes(x), Node::Bytes(y)) => bytes_order(x, y, 0),
        _ => int_order(kind_rank(a), kind_rank(b)),
    }
}

/// The order of two sequences of trees from `from` on.
pub open spec fn nodes_order(a: Seq<Node>, b: Seq<Node>, from: int) -> Rank
    decreases a, a.len() - from,
{
    if from < 0 || from >= a.len() || from >= b.len() {
        int_order(a.len() as int, b.len() as int)
    } else if node_order(a[from], b[from]) != Rank::Equal {
        node_order(a[from], b[from])
    } else {
        nodes_order(a, b, from + 1)
    }
}

/// The order of two sequences of entries from `from` on: entry by entry, the
/// key before the value.
pub open spec fn entries_order(a: Seq<(Node, Node)>, b: Seq<(Node, Node)>, from: int) -> Rank
    decreases a, a.len() - from,
{
    if from < 0 || from >= a.len() || from >= b.len() {
        int_order(a.len() as int, b.len() as int)
    } else if node_order(a[from].0, b[from].0) != Rank::Equal {
        node_order(a[from].0, b[from].0)
    } else if node_order(a[from].1, b[from].1) != Rank::Equal {
        node_order(a[from].1, b[from].1)
    } else {
        entries_order(a, b, from + 1)
    }
}

/// The order of two replacements: by response pointer, then by target.
pub open spec fn replacer_order(a: ReplaceInfoView, b: ReplaceInfoView) -> Rank {
    if text_order(a.response_pointer, b.response_pointer, 0) != Rank::Equal {
        text_order(a.response_pointer, b.response_pointer, 0)
    } else {
        text_order(a.replacer, b.replacer, 0)
    }
}

/// The order of two lists of replacements from `from` on.
pub open spec fn replacers_order(a: Seq<ReplaceInfoView>, b: Seq<ReplaceInfoView>, from: int) -> Rank
    decreases a.len() - from,
{
    if from < 0 || from >= a.len() || from >= b.len() {
        int_order(a.len() as int, b.len() as int)
    } else if replacer_order(a[from], b[from]) != Rank::Equal {
        replacer_order(a[from], b[from])
    } else {
        replacers_order(a, b, from + 1)
    }
}

/// The place of an action's kind in the canonical order.
pub open spec fn action_rank(a: CallActionView) -> int {
    match a {
        CallActionView::NativeBalanceFetch { .. } => 0,
        CallActionView::Cw20BalanceFetch { .. } => 1,
        CallActionView::CustomReplaceQuery { .. } => 2,
        CallActionView::IbcTracking { .. } => 3,
        CallActionView::FieldToBinary { .. } => 4,
        CallActionView::FieldToProtoBinary { .. } => 5,
    }
}

/// The place of a protocol message type among its kind.
pub open spec fn proto_rank(t: ProtoMessageType) -> int {
    match t {
        ProtoMessageType::IbcTransfer => 0,
        ProtoMessageType::OsmosisSwapExactAmtIn => 1,
    }
}

/// The first of the given ranks that is not `Equal`.
pub open spec fn settle(first: Rank, second: Rank) -> Rank {
    if first != Rank::Equal {
        first
    } else {
        second
    }
}

/// The canonical order of two actions: by kind, and two of one kind by their
/// fields, one after another as they are declared.
pub open spec fn action_order(a: CallActionView, b: CallActionView) -> Rank {
    match (a, b) {
        (
            CallActionView::NativeBalanceFetch { denom: d1, replacer: r1 },
            CallActionView::NativeBalanceFetch { denom: d2, replacer: r2 },
        ) => settle(text_order(d1, d2, 0), text_order(r1, r2, 0)),
        (
            CallActionView::Cw20BalanceFetch { contract: c1, replacer: r1 },
            CallActionView::Cw20BalanceFetch { contract: c2, replacer: r2 },
        ) => settle(text_order(c1, c2, 0), text_order(r1, r2, 0)),
        (
            CallActionView::CustomReplaceQuery { query_msg: q1, replacers: r1 },
            CallActionView::CustomReplaceQuery { query_msg: q2, replacers: r2 },
        ) => settle(node_order(q1, q2), replacers_order(r1, r2, 0)),
        (
            CallActionView::IbcTracking { channel: c1, denom: d1, amount: a1, amount_pointer: at1 },
            CallActionView::IbcTracking { channel: c2, denom: d2, amount: a2, amount_pointer: at2 },
        ) => settle(
            text_order(c1, c2, 0),
            settle(
                text_order(d1, d2, 0),
                settle(optional_amount_order(a1, a2), optional_text_order(at1, at2)),
            ),
        ),
        (
            CallActionView::FieldToBinary { replacer: r1 },
            CallActionView::FieldToBinary { replacer: r2 },
        ) => text_order(r1, r2, 0),
        (
            CallActionView::FieldToProtoBinary { replacer: r1, proto_msg_type: t1 },
            CallActionView::FieldToProtoBinary { replacer: r2, proto_msg_type: t2 },
        ) => settle(text_order(r1, r2, 0), int_order(proto_rank(t1), proto_rank(t2))),
        _ => int_order(action_rank(a), action_rank(b)),
    }
}

/// Where `x` goes into `sorted`: before the first action at or after `from`
/// that comes after `x` in the canonical order, or at the end.
pub open spec fn insertion_point(sorted: Seq<CallActionView>, x: CallActionView, from: int) -> int
    decreases sorted.len() - from,
{
    if from < 0 || from >= sorted.len() {
        sorted.len() as int
    } else if action_order(sorted[from], x) == Rank::Greater {
        from
    } else {
        insertion_point(sorted, x, from + 1)
    }
}

/// The actions in canonical order. Actions that the order does not tell apart
/// keep the order in which they were given.
pub open spec fn canonical(actions: Seq<CallActionView>) -> Seq<CallActionView>
    decreases actions.len(),
{
    if actions.len() == 0 {
        actions
    } else {
        let sorted = canonical(actions.drop_last());
        sorted.insert(insertion_point(sorted, actions.last(), 0), actions.last())
    }
}

fn number_order(a: i128, b: i128) -> (r: Rank)
    ensures
        r == int_order(a as int, b as int),
{
    if a < b {
        Rank::Less
    } else if a > b {
        Rank::Greater
    } else {
        Rank::Equal
    }
}

fn length_order(a: usize, b: usize) -> (r: Rank)
    ensures
        r == int_order(a as int, b as int),
{
    if a < b {
        Rank::Less
    } else if a > b {
        Rank::Greater
    } else {
        Rank::Equal
    }
}

fn amount_order(a: u128, b: u128) -> (r: Rank)
    ensures
        r == int_order(a as int, b as int),
{
    if a < b {
        Rank::Less
    } else if a > b {
        Rank::Greater
    } else {
        Rank::Equal
    }
}

fn char_order(a: char, b: char) -> (r: Rank)
    ensures
        r == int_order(a as int, b as int),
{
    if a < b {
        Rank::Less
    } else if a > b {
        Rank::Greater
    } else {
        Rank::Equal
    }
}

/// Orders two strings as the canonical order of actions does.
pub fn order_texts(a: &str, b: &str) -> (r: Rank)
    ensures
        r == text_order(a@, b@, 0),
{
    let la = a.unicode_len();
    let lb = b.unicode_len();
    let mut i: usize = 0;
    while i < la && i < lb
        invariant
            la == a@.len(),
            lb == b@.len(),
            i <= la,
            i <= lb,
            text_order(a@, b@, 0) == text_order(a@, b@, i as int),
        decreases la - i,
    {
        let ca = a.get_char(i);
        let cb = b.get_char(i);
        if ca != cb {
            return char_order(ca, cb);
        }
        i += 1;
    }
    length_order(la, lb)
}

fn order_bytes(a: &Vec<u8>, b: &Vec<u8>) -> (r: Rank)
    ensures
        r == bytes_order(a@, b@, 0),
{
    let mut i: usize = 0;
    while i < a.len() && i < b.len()
        invariant
            i <= a.len(),
            i <= b.len(),
            bytes_order(a@, b@, 0) == bytes_order(a@, b@, i as int),
        decreases a.len() - i,
    {
        if a[i] != b[i] {
            return number_order(a[i] as i128, b[i] as i128);
        }
        i += 1;
    }
    length_order(a.len(), b.len())
}

fn order_optional_texts(a: &Option<String>, b: &Option<String>) -> (r: Rank)
    ensures
        r == optional_text_order(text_of(*a), text_of(*b)),
{
    match (a, b) {
        (None, None) => Rank::Equal,
        (None, Some(_)) => Rank::Less,
        (Some(_), None) => Rank::Greater,
        (Some(x), Some(y)) => order_texts(x.as_str(), y.as_str()),
    }
}

fn order_optional_amounts(a: &Option<u128>, b: &Option<u128>) -> (r: Rank)
    ensures
        r == optional_amount_order(*a, *b),
{
    match (a, b) {
        (None, None) => Rank::Equal,
        (None, Some(_)) => Rank::Less,
        (Some(_), None) => Rank::Greater,
        (Some(x), Some(y)) => amount_order(*x, *y),
    }
}

fn kind_of(v: &Value) -> (k: usize)
    ensures
        k == kind_rank(v@),
{
    match v {
        Value::Bool(_) => 0,
        Value::U8(_) => 1,
        Value::U16(_) => 2,
        Value::U32(_) => 3,
        Value::U64(_) => 4,
        Value::I8(_) => 5,
        Value::I16(_) => 6,
        Value::I32(_) => 7,
        Value::I64(_) => 8,
        Value::Char(_) => 11,
        Value::String(_) => 12,
        Value::Unit => 13,
        Value::Option(_) => 14,
        Value::Newtype(_) => 15,
        Value::Sequence(_) => 16,
        Value::Mapping(_) => 17,
        Value::Bytes(_) => 18,
    }
}

/// Orders two values as the canonical order of actions does.
pub fn order_values(a: &Value, b: &Value) -> (r: Rank)
    ensures
        r == node_order(a@, b@),
    decreases a,
{
    match (a, b) {
        (Value::Bool(x), Value::Bool(y)) => number_order(
            if *x { 1 } else { 0 },
            if *y { 1 } else { 0 },
        ),
        (Value::U8(x), Value::U8(y)) => number_order(*x as i128, *y as i128),
        (Value::U16(x), Value::U16(y)) => number_order(*x as i128, *y as i128),
        (Value::U32(x), Value::U32(y)) => number_order(*x as i128, *y as i128),
        (Value::U64(x), Value::U64(y)) => number_order(*x as i128, *y as i128),
        (Value::I8(x), Value::I8(y)) => number_order(*x as i128, *y as i128),
        (Value::I16(x), Value::I16(y)) => number_order(*x as i128, *y as i128),
        (Value::I32(x), Value::I32(y)) => number_order(*x as i128, *y as i128),
        (Value::I64(x), Value::I64(y)) => number_order(*x as i128, *y as i128),
        (Value::Char(x), Value::Char(y)) => char_order(*x, *y),
        (Value::String(x), Value::String(y)) => order_texts(x.as_str(), y.as_str()),
        (Value::Unit, Value::Unit) => Rank::Equal,
        (Value::Option(None), Value::Option(None)) => Rank::Equal,
        (Value::Option(None), Value::Option(Some(_))) => Rank::Less,
        (Value::Option(Some(_)), Value::Option(None)) => Rank::Greater,
        (Value::Option(Some(x)), Value::Option(Some(y))) => order_values(x, y),
        (Value::Newtype(x), Value::Newtype(y)) => order_values(x, y),
        (Value::Sequence(x), Value::Sequence(y)) => {
            proof {
                lemma_sequence_model(*x);
                lemma_sequence_model(*y);
            }
            let mut i: usize = 0;
            while i < x.len() && i < y.len()
                invariant
                    a is Sequence,
                    a->Sequence_0 == *x,
                    a@ == Node::Sequence(models(x@)),
                    b@ == Node::Sequence(models(y@)),
                    i <= x.len(),
                    i <= y.len(),
                    nodes_order(models(x@), models(y@), 0) == nodes_order(
                        models(x@),
                        models(y@),
                        i as int,
                    ),
                decreases x.len() - i,
            {
                let r = order_values(&x[i], &y[i]);
                if r != Rank::Equal {
                    return r;
                }
                i += 1;
            }
            length_order(x.len(), y.len())
        },
        (Value::Mapping(x), Value::Mapping(y)) => {
            proof {
                lemma_mapping_model(*x);
                lemma_mapping_model(*y);
            }
            let mut i: usize = 0;
            while i < x.len() && i < y.len()
                invariant
                    a is Mapping,
                    a->Mapping_0 == *x,
                    a@ == Node::Mapping(entry_models(x@)),
                    b@ == Node::Mapping(entry_models(y@)),
                    i <= x.len(),
                    i <= y.len(),
                    entries_order(entry_models(x@), entry_models(y@), 0) == entries_order(
                        entry_models(x@),
                        entry_models(y@),
                        i as int,
                    ),
                decreases x.len() - i,
            {
                let r = order_values(&x[i].0, &y[i].0);
                if r != Rank::Equal {
                    return r;
                }
                let r = order_values(&x[i].1, &y[i].1);
                if r != Rank::Equal {
                    return r;
                }
                i += 1;
            }
            length_order(x.len(), y.len())
        },
        (Value::Bytes(x), Value::Bytes(y)) => order_bytes(x, y),
        _ => length_order(kind_of(a), kind_of(b)),
    }
}

fn order_replacers(a: &Vec<ReplaceInfo>, b: &Vec<ReplaceInfo>) -> (r: Rank)
    ensures
        r == replacers_order(replacer_views(a@), replacer_views(b@), 0),
{
    let mut i: usize = 0;
    while i < a.len() && i < b.len()
        invariant
            i <= a.len(),
            i <= b.len(),
            replacers_order(replacer_views(a@), replacer_views(b@), 0) == replacers_order(
                replacer_views(a@),
                replacer_views(b@),
                i as int,
            ),
        decreases a.len() - i,
    {
        let r = order_texts(a[i].response_pointer.as_str(), b[i].response_pointer.as_str());
        if r != Rank::Equal {
            return r;
        }
        let r = order_texts(a[i].replacer.as_str(), b[i].replacer.as_str());
        if r != Rank::Equal {
            return r;
        }
        i += 1;
    }
    length_order(a.len(), b.len())
}

fn rank_of(a: &CallAction) -> (k: usize)
    ensures
        k == action_rank(a@),
{
    match a {
        CallAction::NativeBalanceFetch { .. } => 0,
        CallAction::Cw20BalanceFetch { .. } => 1,
        CallAction::CustomReplaceQuery { .. } => 2,
        CallAction::IbcTracking { .. } => 3,
        CallAction::FieldToBinary { .. } => 4,
        CallAction::FieldToProtoBinary { .. } => 5,
    }
}

fn proto_rank_of(t: &ProtoMessageType) -> (k: usize)
    ensures
        k == proto_rank(*t),
{
    match t {
        ProtoMessageType::IbcTransfer => 0,
        ProtoMessageType::OsmosisSwapExactAmtIn => 1,
    }
}

/// Orders two actions in the canonical order.
pub fn order_actions(a: &CallAction, b: &CallAction) -> (r: Rank)
    ensures
        r == action_order(a@, b@),
{
    match (a, b) {
        (
            CallAction::NativeBalanceFetch { denom: d1, replacer: r1 },
            CallAction::NativeBalanceFetch { denom: d2, replacer: r2 },
        ) => {
            let r = order_texts(d1.as_str(), d2.as_str());
            if r != Rank::Equal {
                return r;
            }
            order_texts(r1.as_str(), r2.as_str())
        },
        (
            CallAction::Cw20BalanceFetch { contract: c1, replacer: r1 },
            CallAction::Cw20BalanceFetch { contract: c2, replacer: r2 },
        ) => {
            let r = order_texts(c1.as_str(), c2.as_str());
            if r != Rank::Equal {
                return r;
            }
            order_texts(r1.as_str(), r2.as_str())
        },
        (
            CallAction::CustomReplaceQuery { query_msg: q1, replacers: r1 },
            CallAction::CustomReplaceQuery { query_msg: q2, replacers: r2 },
        ) => {
            let r = order_values(&q1.0, &q2.0);
            if r != Rank::Equal {
                return r;
            }
            order_replacers(r1, r2)
        },
        (
            CallAction::IbcTracking { channel: c1, denom: d1, amount: a1, amount_pointer: at1 },
            CallAction::IbcTracking { channel: c2, denom: d2, amount: a2, amount_pointer: at2 },
        ) => {
            let r = order_texts(c1.as_str(), c2.as_str());
            if r != Rank::Equal {
                return r;
            }
            let r = order_texts(d1.as_str(), d2.as_str());
            if r != Rank::Equal {
                return r;
            }
            let r = order_optional_amounts(a1, a2);
            if r != Rank::Equal {
                return r;
            }
            order_optional_texts(at1, at2)
        },
        (CallAction::FieldToBinary { replacer: r1 }, CallAction::FieldToBinary { replacer: r2 }) => {
            order_texts(r1.as_str(), r2.as_str())
        },
        (
            CallAction::FieldToProtoBinary { replacer: r1, proto_msg_type: t1 },
            CallAction::FieldToProtoBinary { replacer: r2, proto_msg_type: t2 },
        ) => {
            let r = order_texts(r1.as_str(), r2.as_str());
            if r != Rank::Equal {
                return r;
            }
            length_order(proto_rank_of(t1), proto_rank_of(t2))
        },
        _ => length_order(rank_of(a), rank_of(b)),
    }
}

/// Puts the actions into canonical order.
pub fn sort_actions(actions: Vec<CallAction>) -> (sorted: Vec<CallAction>)
    ensures
        action_views(sorted@) == canonical(action_views(actions@)),
{
    let ghost all = action_views(actions@);
    let mut rest = actions;
    let mut sorted: Vec<CallAction> = Vec::new();
    let ghost mut done: int = 0;
    assert(all.take(0) =~= Seq::<CallActionView>::empty());
    assert(action_views(sorted@) =~= Seq::<CallActionView>::empty());
    assert(all.skip(0) =~= all);
    while rest.len() > 0
        invariant
            0 <= done <= all.len(),
            action_views(rest@) == all.skip(done),
            action_views(sorted@) == canonical(all.take(done)),
        decreases rest.len(),
    {
        let ghost pending = rest@;
        assert(action_views(pending).len() == all.skip(done).len());
        assert(action_views(pending)[0] == all.skip(done)[0]);
        let x = rest.remove(0);
        assert(x == pending[0]);
        assert(rest@ =~= pending.skip(1));
        let ghost before = action_views(sorted@);
        let mut at: usize = 0;
        while at < sorted.len() && order_actions(&sorted[at], &x) != Rank::Greater
            invariant
                at <= sorted.len(),
                action_views(sorted@) == before,
                insertion_point(before, x@, 0) == insertion_point(before, x@, at as int),
            decreases sorted.len() - at,
        {
            at += 1;
        }
        sorted.insert(at, x);
        proof {
            assert(x@ == all[done]);
            assert(all.take(done + 1).drop_last() =~= all.take(done));
            assert(all.take(done + 1).last() == all[done]);
            assert(action_views(sorted@) =~= before.insert(at as int, x@));
            assert forall|i: int| 0 <= i < rest@.len() implies action_views(rest@)[i] == all.skip(
                done + 1,
            )[i] by {
                assert(action_views(pending)[i + 1] == all.skip(done)[i + 1]);
            }
            assert(action_views(rest@) =~= all.skip(done + 1));
            done = done + 1;
        }
    }
    assert(all.take(all.len() as int) =~= all);
    sorted
}

/// The place where an action goes in lies within the actions that are there.
pub proof fn lemma_insertion_point_bounds(sorted: Seq<CallActionView>, x: CallActionView, from: int)
    requires
        0 <= from <= sorted.len(),
    ensures
        from <= insertion_point(sorted, x, from) <= sorted.len(),
    decreases sorted.len() - from,
{
    if from < sorted.len() && action_order(sorted[from], x) != Rank::Greater {
        lemma_insertion_point_bounds(sorted, x, from + 1);
    }
}

/// Putting actions into canonical order neither adds nor drops one: they are
/// as many as before, and each action is among them if and only if it was
/// given.
pub proof fn lemma_canonical_same_actions(actions: Seq<CallActionView>)
    ensures
        canonical(actions).len() == actions.len(),
        forall|x: CallActionView| canonical(actions).contains(x) <==> actions.contains(x),
    decreases actions.len(),
{
    if actions.len() > 0 {
        let rest = actions.drop_last();
        let last = actions.last();
        let sorted = canonical(rest);
        lemma_canonical_same_actions(rest);
        lemma_insertion_point_bounds(sorted, last, 0);
        let at = insertion_point(sorted, last, 0);
        let all = sorted.insert(at, last);
        assert forall|x: CallActionView| all.contains(x) <==> actions.contains(x) by {
            if all.contains(x) {
                let j = choose|j: int| 0 <= j < all.len() && all[j] == x;
                if j == at {
                    assert(actions[actions.len() - 1] == x);
                } else {
                    let k = if j < at {
                        j
                    } else {
                        j - 1
                    };
                    assert(sorted[k] == x);
                    assert(sorted.contains(x));
                    assert(rest.contains(x));
                    let i = choose|i: int| 0 <= i < rest.len() && rest[i] == x;
                    assert(actions[i] == x);
                }
            }
            if actions.contains(x) {
                let i = choose|i: int| 0 <= i < actions.len() && actions[i] == x;
                if i == actions.len() - 1 {
                    assert(all[at] == x);
                } else {
                    assert(rest[i] == x);
                    assert(rest.contains(x));
                    assert(sorted.contains(x));
                    let k = choose|k: int| 0 <= k < sorted.len() && sorted[k] == x;
                    if k < at {
                        assert(all[k] == x);
                    } else {
                        assert(all[k + 1] == x);
                    }
                }
            }
        }
    }
}

/// The rank seen from the other side.
pub open spec fn flip(r: Rank) -> Rank {
    match r {
        Rank::Less => Rank::Greater,
        Rank::Equal => Rank::Equal,
        Rank::Greater => Rank::Less,
    }
}

/// Two strings stand to each other one way round as the other way round,
/// flipped.
pub proof fn lemma_text_order_flip(a: Seq<char>, b: Seq<char>, from: int)
    ensures
        text_order(b, a, from) == flip(text_order(a, b, from)),
    decreases a.len() - from,
{
    if 0 <= from < a.len() && from < b.len() && a[from] == b[from] {
        lemma_text_order_flip(a, b, from + 1);
    }
}

/// Two byte strings stand to each other one way round as the other way round,
/// flipped.
pub proof fn lemma_bytes_order_flip(a: Seq<u8>, b: Seq<u8>, from: int)
    ensures
        bytes_order(b, a, from) == flip(bytes_order(a, b, from)),
    decreases a.len() - from,
{
    if 0 <= from < a.len() && from < b.len() && a[from] == b[from] {
        lemma_bytes_order_flip(a, b, from + 1);
    }
}

/// Two trees stand to each other one way round as the other way round,
/// flipped.
pub proof fn lemma_node_order_flip(a: Node, b: Node)
    ensures
        node_order(b, a) == flip(node_order(a, b)),
    decreases a, 0int,
{
    match (a, b) {
        (Node::String(x), Node::String(y)) => {
            lemma_text_order_flip(x, y, 0);
        },
        (Node::Option(Some(x)), Node::Option(Some(y))) => {
            lemma_node_order_flip(*x, *y);
        },
        (Node::Newtype(x), Node::Newtype(y)) => {
            lemma_node_order_flip(*x, *y);
        },
        (Node::Sequence(x), Node::Sequence(y)) => {
            lemma_nodes_order_flip(x, y, 0);
        },
        (Node::Mapping(x), Node::Mapping(y)) => {
            lemma_entries_order_flip(x, y, 0);
        },
        (Node::Bytes(x), Node::Bytes(y)) => {
            lemma_bytes_order_flip(x, y, 0);
        },
        _ => {},
    }
}

/// Two sequences of trees stand to each other one way round as the other way
/// round, flipped.
pub proof fn lemma_nodes_order_flip(a: Seq<Node>, b: Seq<Node>, from: int)
    ensures
        nodes_order(b, a, from) == flip(nodes_order(a, b, from)),
    decreases a, a.len() - from,
{
    if 0 <= from < a.len() && from < b.len() {
        lemma_node_order_flip(a[from], b[from]);
        if node_order(a[from], b[from]) == Rank::Equal {
            lemma_nodes_order_flip(a, b, from + 1);
        }
    }
}

/// Two sequences of entries stand to each other one way round as the other
/// way round, flipped.
pub proof fn lemma_entries_order_flip(a: Seq<(Node, Node)>, b: Seq<(Node, Node)>, from: int)
    ensures
        entries_order(b, a, from) == flip(entries_order(a, b, from)),
    decreases a, a.len() - from,
{
    if 0 <= from < a.len() && from < b.len() {
        lemma_node_order_flip(a[from].0, b[from].0);
        lemma_node_order_flip(a[from].1, b[from].1);
        if node_order(a[from].0, b[from].0) == Rank::Equal && node_order(a[from].1, b[from].1)
            == Rank::Equal {
            lemma_entries_order_flip(a, b, from + 1);
        }
    }
}

/// Two lists of replacements stand to each other one way round as the other
/// way round, flipped.
pub proof fn lemma_replacers_order_flip(a: Seq<ReplaceInfoView>, b: Seq<ReplaceInfoView>, from: int)
    ensures
        replacers_order(b, a, from) == flip(replacers_order(a, b, from)),
    decreases a.len() - from,
{
    if 0 <= from < a.len() && from < b.len() {
        lemma_text_order_flip(a[from].response_pointer, b[from].response_pointer, 0);
        lemma_text_order_flip(a[from].replacer, b[from].replacer, 0);
        if replacer_order(a[from], b[from]) == Rank::Equal {
            lemma_replacers_order_flip(a, b, from + 1);
        }
    }
}

/// Two actions stand to each other one way round as the other way round,
/// flipped: where one comes after the other, the other comes before it.
pub proof fn lemma_action_order_flip(a: CallActionView, b: CallActionView)
    ensures
        action_order(b, a) == flip(action_order(a, b)),
{
    match (a, b) {
        (
            CallActionView::NativeBalanceFetch { denom: d1, replacer: r1 },
            CallActionView::NativeBalanceFetch { denom: d2, replacer: r2 },
        ) => {
            lemma_text_order_flip(d1, d2, 0);
            lemma_text_order_flip(r1, r2, 0);
        },
        (
            CallActionView::Cw20BalanceFetch { contract: c1, replacer: r1 },
            CallActionView::Cw20BalanceFetch { contract: c2, replacer: r2 },
        ) => {
            lemma_text_order_flip(c1, c2, 0);
            lemma_text_order_flip(r1, r2, 0);
        },
        (
            CallActionView::CustomReplaceQuery { query_msg: q1, replacers: r1 },
            CallActionView::CustomReplaceQuery { query_msg: q2, replacers: r2 },
        ) => {
            lemma_node_order_flip(q1, q2);
            lemma_replacers_order_flip(r1, r2, 0);
        },
        (
            CallActionView::IbcTracking { channel: c1, denom: d1, amount: a1, amount_pointer: at1 },
            CallActionView::IbcTracking { channel: c2, denom: d2, amount: a2, amount_pointer: at2 },
        ) => {
            lemma_text_order_flip(c1, c2, 0);
            lemma_text_order_flip(d1, d2, 0);
            if at1 is Some && at2 is Some {
                lemma_text_order_flip(at1->Some_0, at2->Some_0, 0);
            }
        },
        (
            CallActionView::FieldToBinary { replacer: r1 },
            CallActionView::FieldToBinary { replacer: r2 },
        ) => {
            lemma_text_order_flip(r1, r2, 0);
        },
        (
            CallActionView::FieldToProtoBinary { replacer: r1, .. },
            CallActionView::FieldToProtoBinary { replacer: r2, .. },
        ) => {
            lemma_text_order_flip(r1, r2, 0);
        },
        _ => {},
    }
}

/// Whether `a` does not come after `b` in the canonical order.
#[verifier::opaque]
pub open spec fn not_after(a: CallActionView, b: CallActionView) -> bool {
    action_order(a, b) != Rank::Greater
}

/// Whether no action is followed by one that comes before it in the canonical
/// order.
pub open spec fn ordered(actions: Seq<CallActionView>) -> bool {
    forall|i: int| 0 <= i < actions.len() - 1 ==> not_after(#[trigger] actions[i], actions[i + 1])
}

/// Of two actions, one does not come after the other.
pub proof fn lemma_one_not_after(a: CallActionView, b: CallActionView)
    ensures
        not_after(a, b) || not_after(b, a),
{
    reveal(not_after);
    lemma_action_order_flip(a, b);
}

/// No action before the place where `x` goes in comes after `x`, and the
/// action at that place, if there is one, does.
pub proof fn lemma_insertion_point_is_first(sorted: Seq<CallActionView>, x: CallActionView, from: int)
    requires
        0 <= from <= sorted.len(),
    ensures
        forall|i: int|
            from <= i < insertion_point(sorted, x, from) ==> not_after(#[trigger] sorted[i], x),
        insertion_point(sorted, x, from) < sorted.len() ==> !not_after(
            sorted[insertion_point(sorted, x, from)],
            x,
        ),
    decreases sorted.len() - from,
{
    reveal(not_after);
    if from < sorted.len() && action_order(sorted[from], x) != Rank::Greater {
        lemma_insertion_point_is_first(sorted, x, from + 1);
    }
}

/// An action that goes in after all that do not come after it, and before one
/// that does, keeps the order.
pub proof fn lemma_insert_keeps_order(sorted: Seq<CallActionView>, x: CallActionView, at: int)
    requires
        ordered(sorted),
        0 <= at <= sorted.len(),
        forall|i: int| 0 <= i < at ==> not_after(#[trigger] sorted[i], x),
        at < sorted.len() ==> !not_after(sorted[at], x),
    ensures
        ordered(sorted.insert(at, x)),
{
    let all = sorted.insert(at, x);
    assert forall|i: int| 0 <= i < all.len() - 1 implies not_after(#[trigger] all[i], all[i + 1]) by {
        if i + 1 < at {
            assert(all[i] == sorted[i] && all[i + 1] == sorted[i + 1]);
        } else if i + 1 == at {
            assert(all[i] == sorted[i]);
            assert(all[i + 1] == x);
        } else if i == at {
            assert(all[i] == x);
            assert(all[i + 1] == sorted[at]);
            lemma_one_not_after(sorted[at], x);
        } else {
            assert(all[i] == sorted[i - 1] && all[i + 1] == sorted[i]);
            assert(not_after(sorted[i - 1], sorted[i - 1 + 1]));
        }
    }
}

/// The canonical order is an order: in it no action is followed by one that
/// comes before it.
pub proof fn lemma_canonical_ordered(actions: Seq<CallActionView>)
    ensures
        ordered(canonical(actions)),
    decreases actions.len(),
{
    if actions.len() > 0 {
        let sorted = canonical(actions.drop_last());
        let x = actions.last();
        lemma_canonical_ordered(actions.drop_last());
        lemma_insertion_point_bounds(sorted, x, 0);
        lemma_insertion_point_is_first(sorted, x, 0);
        lemma_insert_keeps_order(sorted, x, insertion_point(sorted, x, 0));
    }
}

/// The canonical order holds each action as often as it was given.
pub proof fn lemma_canonical_permutation(actions: Seq<CallActionView>)
    ensures
        canonical(actions).to_multiset() == actions.to_multiset(),
    decreases actions.len(),
{
    broadcast use vstd::seq_lib::group_to_multiset_ensures;

    if actions.len() > 0 {
        let rest = actions.drop_last();
        let sorted = canonical(rest);
        let x = actions.last();
        lemma_canonical_permutation(rest);
        lemma_insertion_point_bounds(sorted, x, 0);
        let at = insertion_point(sorted, x, 0);
        let all = sorted.insert(at, x);
        assert(all.remove(at) =~= sorted);
        assert(all[at] == x);
        assert(all.to_multiset().remove(x) =~= sorted.to_multiset());
        assert(all.contains(x));
        assert(all.to_multiset() =~= sorted.to_multiset().insert(x));
        assert(rest.push(x) =~= actions);
        assert(actions.to_multiset() =~= rest.to_multiset().insert(x));
    } else {
        assert(canonical(actions) =~= actions);
    }
}

/// Whether three ranks can be those of a first thing to a second, of the
/// second to a third and of the first to the third, in an order: where the
/// first does not come after the second nor the second after the third, the
/// first does not come after the third, and stands level with it only where
/// all three stand level.
pub open spec fn chains(ab: Rank, bc: Rank, ac: Rank) -> bool {
    (ab != Rank::Greater && bc != Rank::Greater) ==> (ac != Rank::Greater && (ac == Rank::Equal
        <==> (ab == Rank::Equal && bc == Rank::Equal)))
}

/// Where two orders chain, so does the order that takes the second where the
/// first does not tell apart.
pub proof fn lemma_settle_chains(ab1: Rank, bc1: Rank, ac1: Rank, ab2: Rank, bc2: Rank, ac2: Rank)
    requires
        chains(ab1, bc1, ac1),
        chains(ab2, bc2, ac2),
    ensures
        chains(settle(ab1, ab2), settle(bc1, bc2), settle(ac1, ac2)),
{
}

/// The order of strings chains.
pub proof fn lemma_text_order_chains(a: Seq<char>, b: Seq<char>, c: Seq<char>, from: int)
    requires
        0 <= from,
    ensures
        chains(text_order(a, b, from), text_order(b, c, from), text_order(a, c, from)),
    decreases a.len() - from,
{
    if from < a.len() && from < b.len() && from < c.len() && a[from] == b[from] && b[from]
        == c[from] {
        lemma_text_order_chains(a, b, c, from + 1);
    }
}

/// The order of byte strings chains.
pub proof fn lemma_bytes_order_chains(a: Seq<u8>, b: Seq<u8>, c: Seq<u8>, from: int)
    requires
        0 <= from,
    ensures
        chains(bytes_order(a, b, from), bytes_order(b, c, from), bytes_order(a, c, from)),
    decreases a.len() - from,
{
    if from < a.len() && from < b.len() && from < c.len() && a[from] == b[from] && b[from]
        == c[from] {
        lemma_bytes_order_chains(a, b, c, from + 1);
    }
}

/// Trees of different kinds are ordered by kind.
pub proof fn lemma_node_order_by_kind(a: Node, b: Node)
    requires
        kind_rank(a) != kind_rank(b),
    ensures
        node_order(a, b) == int_order(kind_rank(a), kind_rank(b)),
{
}

/// The order of trees chains.
pub proof fn lemma_node_order_chains(a: Node, b: Node, c: Node)
    ensures
        chains(node_order(a, b), node_order(b, c), node_order(a, c)),
    decreases a, 0int,
{
    if kind_rank(a) != kind_rank(b) {
        lemma_node_order_by_kind(a, b);
    }
    if kind_rank(b) != kind_rank(c) {
        lemma_node_order_by_kind(b, c);
    }
    if kind_rank(a) != kind_rank(c) {
        lemma_node_order_by_kind(a, c);
    }
    if kind_rank(a) == kind_rank(b) && kind_rank(b) == kind_rank(c) {
        match (a, b, c) {
            (Node::String(x), Node::String(y), Node::String(z)) => {
                lemma_text_order_chains(x, y, z, 0);
            },
            (Node::Option(Some(x)), Node::Option(Some(y)), Node::Option(Some(z))) => {
                lemma_node_order_chains(*x, *y, *z);
            },
            (Node::Newtype(x), Node::Newtype(y), Node::Newtype(z)) => {
                lemma_node_order_chains(*x, *y, *z);
            },
            (Node::Sequence(x), Node::Sequence(y), Node::Sequence(z)) => {
                lemma_nodes_order_chains(x, y, z, 0);
            },
            (Node::Mapping(x), Node::Mapping(y), Node::Mapping(z)) => {
                lemma_entries_order_chains(x, y, z, 0);
            },
            (Node::Bytes(x), Node::Bytes(y), Node::Bytes(z)) => {
                lemma_bytes_order_chains(x, y, z, 0);
            },
            _ => {},
        }
    }
}

/// The order of sequences of trees chains.
pub proof fn lemma_nodes_order_chains(a: Seq<Node>, b: Seq<Node>, c: Seq<Node>, from: int)
    requires
        0 <= from,
    ensures
        chains(nodes_order(a, b, from), nodes_order(b, c, from), nodes_order(a, c, from)),
    decreases a, a.len() - from,
{
    if from < a.len() && from < b.len() && from < c.len() {
        lemma_node_order_chains(a[from], b[from], c[from]);
        if node_order(a[from], b[from]) == Rank::Equal && node_order(b[from], c[from])
            == Rank::Equal {
            lemma_nodes_order_chains(a, b, c, from + 1);
        }
    }
}

/// The order of sequences of entries chains.
pub proof fn lemma_entries_order_chains(
    a: Seq<(Node, Node)>,
    b: Seq<(Node, Node)>,
    c: Seq<(Node, Node)>,
    from: int,
)
    requires
        0 <= from,
    ensures
        chains(entries_order(a, b, from), entries_order(b, c, from), entries_order(a, c, from)),
    decreases a, a.len() - from,
{
    if from < a.len() && from < b.len() && from < c.len() {
        lemma_node_order_chains(a[from].0, b[from].0, c[from].0);
        lemma_node_order_chains(a[from].1, b[from].1, c[from].1);
        if node_order(a[from].0, b[from].0) == Rank::Equal && node_order(b[from].0, c[from].0)
            == Rank::Equal && node_order(a[from].1, b[from].1) == Rank::Equal && node_order(
            b[from].1,
            c[from].1,
        ) == Rank::Equal {
            lemma_entries_order_chains(a, b, c, from + 1);
        }
    }
}

/// The order of lists of replacements chains.
pub proof fn lemma_replacers_order_chains(
    a: Seq<ReplaceInfoView>,
    b: Seq<ReplaceInfoView>,
    c: Seq<ReplaceInfoView>,
    from: int,
)
    requires
        0 <= from,
    ensures
        chains(replacers_order(a, b, from), replacers_order(b, c, from), replacers_order(a, c, from)),
    decreases a.len() - from,
{
    if from < a.len() && from < b.len() && from < c.len() {
        lemma_text_order_chains(a[from].response_pointer, b[from].response_pointer, c[from].response_pointer, 0);
        lemma_text_order_chains(a[from].replacer, b[from].replacer, c[from].replacer, 0);
        if replacer_order(a[from], b[from]) == Rank::Equal && replacer_order(b[from], c[from])
            == Rank::Equal {
            lemma_replacers_order_chains(a, b, c, from + 1);
        }
    }
}

/// The order of strings that may be absent chains.
pub proof fn lemma_optional_text_order_chains(
    a: Option<Seq<char>>,
    b: Option<Seq<char>>,
    c: Option<Seq<char>>,
)
    ensures
        chains(optional_text_order(a, b), optional_text_order(b, c), optional_text_order(a, c)),
{
    if a is Some && b is Some && c is Some {
        lemma_text_order_chains(a->Some_0, b->Some_0, c->Some_0, 0);
    }
}

/// Actions of different kinds are ordered by kind.
pub proof fn lemma_action_order_by_kind(a: CallActionView, b: CallActionView)
    requires
        action_rank(a) != action_rank(b),
    ensures
        action_order(a, b) == int_order(action_rank(a), action_rank(b)),
{
}

/// The canonical order of actions chains.
pub proof fn lemma_action_order_chains(a: CallActionView, b: CallActionView, c: CallActionView)
    ensures
        chains(action_order(a, b), action_order(b, c), action_order(a, c)),
{
    if action_rank(a) != action_rank(b) {
        lemma_action_order_by_kind(a, b);
    }
    if action_rank(b) != action_rank(c) {
        lemma_action_order_by_kind(b, c);
    }
    if action_rank(a) != action_rank(c) {
        lemma_action_order_by_kind(a, c);
    }
    if action_rank(a) == action_rank(b) && action_rank(b) == action_rank(c) {
        match (a, b, c) {
            (
                CallActionView::NativeBalanceFetch { denom: d1, replacer: r1 },
                CallActionView::NativeBalanceFetch { denom: d2, replacer: r2 },
                CallActionView::NativeBalanceFetch { denom: d3, replacer: r3 },
            ) => {
                lemma_text_order_chains(d1, d2, d3, 0);
                lemma_text_order_chains(r1, r2, r3, 0);
            },
            (
                CallActionView::Cw20BalanceFetch { contract: c1, replacer: r1 },
                CallActionView::Cw20BalanceFetch { contract: c2, replacer: r2 },
                CallActionView::Cw20BalanceFetch { contract: c3, replacer: r3 },
            ) => {
                lemma_text_order_chains(c1, c2, c3, 0);
                lemma_text_order_chains(r1, r2, r3, 0);
            },
            (
                CallActionView::CustomReplaceQuery { query_msg: q1, replacers: r1 },
                CallActionView::CustomReplaceQuery { query_msg: q2, replacers: r2 },
                CallActionView::CustomReplaceQuery { query_msg: q3, replacers: r3 },
            ) => {
                lemma_node_order_chains(q1, q2, q3);
                lemma_replacers_order_chains(r1, r2, r3, 0);
            },
            (
                CallActionView::IbcTracking {
                    channel: c1,
                    denom: d1,
                    amount: a1,
                    amount_pointer: at1,
                },
                CallActionView::IbcTracking {
                    channel: c2,
                    denom: d2,
                    amount: a2,
                    amount_pointer: at2,
                },
                CallActionView::IbcTracking {
                    channel: c3,
                    denom: d3,
                    amount: a3,
                    amount_pointer: at3,
                },
            ) => {
                lemma_text_order_chains(c1, c2, c3, 0);
                lemma_text_order_chains(d1, d2, d3, 0);
                lemma_optional_text_order_chains(at1, at2, at3);
                let x1 = optional_amount_order(a1, a2);
                let x2 = optional_amount_order(a2, a3);
                let x3 = optional_amount_order(a1, a3);
                assert(chains(x1, x2, x3));
                lemma_settle_chains(
                    x1,
                    x2,
                    x3,
                    optional_text_order(at1, at2),
                    optional_text_order(at2, at3),
                    optional_text_order(at1, at3),
                );
                lemma_settle_chains(
                    text_order(d1, d2, 0),
                    text_order(d2, d3, 0),
                    text_order(d1, d3, 0),
                    settle(x1, optional_text_order(at1, at2)),
                    settle(x2, optional_text_order(at2, at3)),
                    settle(x3, optional_text_order(at1, at3)),
                );
            },
            (
                CallActionView::FieldToBinary { replacer: r1 },
                CallActionView::FieldToBinary { replacer: r2 },
                CallActionView::FieldToBinary { replacer: r3 },
            ) => {
                lemma_text_order_chains(r1, r2, r3, 0);
            },
            (
                CallActionView::FieldToProtoBinary { replacer: r1, .. },
                CallActionView::FieldToProtoBinary { replacer: r2, .. },
                CallActionView::FieldToProtoBinary { replacer: r3, .. },
            ) => {
                lemma_text_order_chains(r1, r2, r3, 0);
            },
            _ => {},
        }
    }
}

/// Not coming after is handed on: an action that does not come after a second
/// one, which does not come after a third, does not come after the third.
pub proof fn lemma_not_after_chains(a: CallActionView, b: CallActionView, c: CallActionView)
    requires
        not_after(a, b),
        not_after(b, c),
    ensures
        not_after(a, c),
{
    reveal(not_after);
    lemma_action_order_chains(a, b, c);
}

/// In actions that are ordered, no action comes after a later one.
pub proof fn lemma_ordered_throughout(actions: Seq<CallActionView>, i: int, j: int)
    requires
        ordered(actions),
        0 <= i < j < actions.len(),
    ensures
        not_after(actions[i], actions[j]),
    decreases j - i,
{
    if i + 1 < j {
        lemma_ordered_throughout(actions, i, j - 1);
        assert(not_after(actions[j - 1], actions[j - 1 + 1]));
        lemma_not_after_chains(actions[i], actions[j - 1], actions[j]);
    } else {
        assert(not_after(actions[i], actions[i + 1]));
    }
}

/// In the canonical order no action comes after a later one.
pub proof fn lemma_canonical_sorted(actions: Seq<CallActionView>)
    ensures
        forall|i: int, j: int|
            0 <= i < j < actions.len() ==> not_after(
                #[trigger] canonical(actions)[i],
                #[trigger] canonical(actions)[j],
            ),
{
    lemma_canonical_ordered(actions);
    lemma_canonical_same_actions(actions);
    assert forall|i: int, j: int| 0 <= i < j < actions.len() implies not_after(
        #[trigger] canonical(actions)[i],
        #[trigger] canonical(actions)[j],
    ) by {
        lemma_ordered_throughout(canonical(actions), i, j);
    }
}

} // verus!
