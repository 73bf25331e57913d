use vstd::prelude::*;

verus! {

/// A self-describing tree of maps, sequences and scalars: the shape in which
/// message templates and query responses are held while they are edited.
///
/// A `Mapping` keeps its entries in a vector; a key is looked up from the front.
#[derive(Debug, PartialEq, Eq)]
pub enum Value {
    Bool(bool),
    U8(u8),
    U16(u16),
    U32(u32),
    U64(u64),
    I8(i8),
    I16(i16),
    I32(i32),
    I64(i64),
    Char(char),
    String(String),
    Unit,
    Option(Option<Box<Value>>),
    Newtype(Box<Value>),
    Sequence(Vec<Value>),
    Mapping(Vec<(Value, Value)>),
    Bytes(Vec<u8>),
}

/// The mathematical tree that a [`Value`] stands for.
#[verifier::ext_equal]
pub enum Node {
    Bool(bool),
    U8(u8),
    U16(u16),
    U32(u32),
    U64(u64),
    I8(i8),
    I16(i16),
    I32(i32),
    I64(i64),
    Char(char),
    String(Seq<char>),
    Unit,
    Option(Option<Box<Node>>),
    Newtype(Box<Node>),
    Sequence(Seq<Node>),
    Mapping(Seq<(Node, Node)>),
    Bytes(Seq<u8>),
}

/// The tree of `v`, child by child.
pub open spec fn model(v: Value) -> Node
    decreases v,
{
    match v {
        Value::Bool(b) => Node::Bool(b),
        Value::U8(n) => Node::U8(n),
        Value::U16(n) => Node::U16(n),
        Value::U32(n) => Node::U32(n),
        Value::U64(n) => Node::U64(n),
        Value::I8(n) => Node::I8(n),
        Value::I16(n) => Node::I16(n),
        Value::I32(n) => Node::I32(n),
        Value::I64(n) => Node::I64(n),
        Value::Char(c) => Node::Char(c),
        Value::String(s) => Node::String(s@),
        Value::Unit => Node::Unit,
        Value::Option(None) => Node::Option(None),
        Value::Option(Some(inner)) => Node::Option(Some(Box::new(model(*inner)))),
        Value::Newtype(inner) => Node::Newtype(Box::new(model(*inner))),
        Value::Sequence(items) => Node::Sequence(
            Seq::new(
                items.len() as nat,
                |i: int|
                    if 0 <= i < items.len() {
                        model(items[i])
                    } else {
                        Node::Unit
                    },
            ),
        ),
        Value::Mapping(entries) => Node::Mapping(
            Seq::new(
                entries.len() as nat,
                |i: int|
                    if 0 <= i < entries.len() {
                        (model(entries[i].0), model(entries[i].1))
                    } else {
                        (Node::Unit, Node::Unit)
                    },
            ),
        ),
        Value::Bytes(bytes) => Node::Bytes(bytes@),
    }
}

impl View for Value {
    type V = Node;

    open spec fn view(&self) -> Node {
        model(*self)
    }
}

/// The trees of a vector of values, in order.
pub open spec fn models(items: Seq<Value>) -> Seq<Node> {
    Seq::new(items.len(), |i: int| model(items[i]))
}

/// The trees of a vector of key and value pairs, in order.
pub open spec fn entry_models(entries: Seq<(Value, Value)>) -> Seq<(Node, Node)> {
    Seq::new(entries.len(), |i: int| (model(entries[i].0), model(entries[i].1)))
}

/// A sequence's tree is the trees of its items.
pub proof fn lemma_sequence_model(items: Vec<Value>)
    ensures
        model(Value::Sequence(items)) == Node::Sequence(models(items@)),
{
    assert(model(Value::Sequence(items))->Sequence_0 =~= models(items@));
}

/// A mapping's tree is the trees of its entries.
pub proof fn lemma_mapping_model(entries: Vec<(Value, Value)>)
    ensures
        model(Value::Mapping(entries)) == Node::Mapping(entry_models(entries@)),
{
    assert(model(Value::Mapping(entries))->Mapping_0 =~= entry_models(entries@));
}

impl Value {
    /// A deep copy: a new value with the same tree.
    pub fn duplicate(&self) -> (copy: Value)
        ensures
            copy@ == self@,
        decreases self,
    {
        match self {
            Value::Bool(b) => Value::Bool(*b),
            Value::U8(n) => Value::U8(*n),
            Value::U16(n) => Value::U16(*n),
            Value::U32(n) => Value::U32(*n),
            Value::U64(n) => Value::U64(*n),
            Value::I8(n) => Value::I8(*n),
            Value::I16(n) => Value::I16(*n),
            Value::I32(n) => Value::I32(*n),
            Value::I64(n) => Value::I64(*n),
            Value::Char(c) => Value::Char(*c),
            Value::String(s) => Value::String(s.clone()),
            Value::Unit => Value::Unit,
            Value::Option(None) => Value::Option(None),
            Value::Option(Some(inner)) => Value::Option(Some(Box::new(inner.duplicate()))),
            Value::Newtype(inner) => Value::Newtype(Box::new(inner.duplicate())),
            Value::Sequence(items) => {
                let mut copies: Vec<Value> = Vec::new();
                let mut i: usize = 0;
                while i < items.len()
                    invariant
                        self is Sequence,
                        self->Sequence_0 == *items,
                        i <= items.len(),
                        copies.len() == i,
                        forall|j: int| 0 <= j < i ==> model(copies[j]) == model(items[j]),
                    decreases items.len() - i,
                {
                    let copy = items[i].duplicate();
                    copies.push(copy);
                    i += 1;
                }
                proof {
                    lemma_sequence_model(*items);
                    lemma_sequence_model(copies);
                    assert(models(copies@) =~= models(items@));
                }
                Value::Sequence(copies)
            },
            Value::Mapping(entries) => {
                let mut copies: Vec<(Value, Value)> = Vec::new();
                let mut i: usize = 0;
                while i < entries.len()
                    invariant
                        self is Mapping,
                        self->Mapping_0 == *entries,
                        i <= entries.len(),
                        copies.len() == i,
                        forall|j: int|
                            0 <= j < i ==> model(copies[j].0) == model(entries[j].0) && model(
                                copies[j].1,
                            ) == model(entries[j].1),
                    decreases entries.len() - i,
                {
                    let key = entries[i].0.duplicate();
                    let val = entries[i].1.duplicate();
                    copies.push((key, val));
                    i += 1;
                }
                proof {
                    lemma_mapping_model(*entries);
                    lemma_mapping_model(copies);
                    assert(entry_models(copies@) =~= entry_models(entries@));
                }
                Value::Mapping(copies)
            },
            Value::Bytes(bytes) => {
                let mut copies: Vec<u8> = Vec::new();
                let mut i: usize = 0;
                while i < bytes.len()
                    invariant
                        i <= bytes.len(),
                        copies@ == bytes@.subrange(0, i as int),
                    decreases bytes.len() - i,
                {
                    copies.push(bytes[i]);
                    assert(copies@ =~= bytes@.subrange(0, i + 1));
                    i += 1;
                }
                assert(copies@ =~= bytes@);
                Value::Bytes(copies)
            },
        }
    }
}

} // verus!
