use crate::value::{entry_models, lemma_mapping_model, lemma_sequence_model, model, models, Node, Value};
use vstd::prelude::*;

verus! {

/// `String::push` appends one character to the end of the string.
pub assume_specification[ std::string::String::push ](s: &mut std::string::String, c: char)
    ensures
        final(s)@ == old(s)@.push(c),
;

/// Whether `c` is one of the ten decimal digits.
pub open spec fn is_digit(c: char) -> bool {
    '0' <= c <= '9'
}

/// The number that the digit `c` stands for.
pub open spec fn digit_value(c: char) -> nat {
    (c as nat - '0' as nat) as nat
}

/// The number that a run of decimal digits stands for, most significant first.
pub open spec fn decimal(s: Seq<char>) -> nat
    decreases s.len(),
{
    if s.len() == 0 {
        0
    } else {
        decimal(s.drop_last()) * 10 + digit_value(s.last())
    }
}

/// Whether every character of `s` is a decimal digit.
pub open spec fn all_digits(s: Seq<char>) -> bool {
    forall|i: int| 0 <= i < s.len() ==> is_digit(#[trigger] s[i])
}

/// The sequence index that a pointer segment names: a non-empty run of digits
/// without a sign and without a leading zero (but `0` itself) whose number fits
/// a machine word.
pub open spec fn index_of(s: Seq<char>) -> Option<usize> {
    if s.len() > 0 && all_digits(s) && (s[0] != '0' || s.len() == 1) && decimal(s) <= usize::MAX {
        Some(decimal(s) as usize)
    } else {
        None
    }
}

/// A run of digits is worth at least as much as each of its prefixes.
pub proof fn lemma_decimal_prefix(s: Seq<char>, n: int)
    requires
        0 <= n <= s.len(),
    ensures
        decimal(s.subrange(0, n)) <= decimal(s),
    decreases s.len(),
{
    if n == s.len() {
        assert(s.subrange(0, n) =~= s);
    } else {
        lemma_decimal_prefix(s.drop_last(), n);
        assert(s.drop_last().subrange(0, n) =~= s.subrange(0, n));
    }
}

/// Reads a pointer segment as a sequence index.
pub fn parse_index(s: &str) -> (r: Option<usize>)
    ensures
        r == index_of(s@),
{
    let n = s.unicode_len();
    if n == 0 {
        return None;
    }
    let first = s.get_char(0);
    if first == '0' && n != 1 {
        return None;
    }
    let mut acc: usize = 0;
    let mut i: usize = 0;
    while i < n
        invariant
            n == s@.len(),
            i <= n,
            all_digits(s@.subrange(0, i as int)),
            acc == decimal(s@.subrange(0, i as int)),
        decreases n - i,
    {
        let c = s.get_char(i);
        if !('0' <= c && c <= '9') {
            assert(!is_digit(s@[i as int]));
            return None;
        }
        let d: usize = (c as u32 - '0' as u32) as usize;
        assert(s@.subrange(0, i + 1).drop_last() =~= s@.subrange(0, i as int));
        assert(s@.subrange(0, i + 1).last() == c);
        assert(d == digit_value(c));
        if acc > (usize::MAX - d) / 10 {
            proof {
                lemma_decimal_prefix(s@, i + 1);
            }
            return None;
        }
        acc = acc * 10 + d;
        assert forall|j: int| 0 <= j < i + 1 implies is_digit(#[trigger] s@.subrange(0, i + 1)[j]) by {
            if j < i {
                assert(s@.subrange(0, i + 1)[j] == s@.subrange(0, i as int)[j]);
            }
        }
        i += 1;
    }
    assert(s@.subrange(0, n as int) =~= s@);
    Some(acc)
}

/// `s` with each `~` that is followed by `code` replaced, from the left, by
/// `with`.
pub open spec fn replace_escape(s: Seq<char>, code: char, with: char) -> Seq<char>
    decreases s.len(),
{
    if s.len() == 0 {
        s
    } else if s.len() >= 2 && s[0] == '~' && s[1] == code {
        seq![with] + replace_escape(s.skip(2), code, with)
    } else {
        seq![s[0]] + replace_escape(s.skip(1), code, with)
    }
}

/// A pointer segment as the key it names: `~1` stands for `/`, then `~0` for `~`.
pub open spec fn unescape(s: Seq<char>) -> Seq<char> {
    replace_escape(replace_escape(s, '1', '/'), '0', '~')
}

/// The place of the first `/` in `s`, or the length of `s` where it has none.
pub open spec fn first_slash(s: Seq<char>) -> int
    decreases s.len(),
{
    if s.len() == 0 {
        0
    } else if s[0] == '/' {
        0
    } else {
        1 + first_slash(s.skip(1))
    }
}

/// The keys that a path names: the path is cut at each `/`, and each piece is
/// unescaped. A path always names at least one key.
pub open spec fn tokens(s: Seq<char>) -> Seq<Seq<char>>
    decreases s.len(),
{
    let k = first_slash(s);
    if 0 <= k < s.len() {
        seq![unescape(s.take(k))] + tokens(s.skip(k + 1))
    } else {
        seq![unescape(s)]
    }
}

/// The place of the first entry at or after `from` whose key is the string `key`.
pub open spec fn key_position(entries: Seq<(Node, Node)>, key: Seq<char>, from: int) -> Option<int>
    decreases entries.len() - from,
{
    if from < 0 || from >= entries.len() {
        None
    } else if entries[from].0 == Node::String(key) {
        Some(from)
    } else {
        key_position(entries, key, from + 1)
    }
}

/// The child of `n` that the key `token` names: in a mapping the value of the
/// first entry with that string as its key, in a sequence the item at that
/// index. Anything else has no children.
pub open spec fn child(n: Node, token: Seq<char>) -> Option<Node> {
    match n {
        Node::Mapping(entries) => match key_position(entries, token, 0) {
            Some(i) => Some(entries[i].1),
            None => None,
        },
        Node::Sequence(items) => match index_of(token) {
            Some(i) => if i < items.len() {
                Some(items[i as int])
            } else {
                None
            },
            None => None,
        },
        _ => None,
    }
}

/// `n` with the child that `token` names replaced by `new_child`; `n` itself
/// where it has no such child.
pub open spec fn with_child(n: Node, token: Seq<char>, new_child: Node) -> Node {
    match n {
        Node::Mapping(entries) => match key_position(entries, token, 0) {
            Some(i) => Node::Mapping(entries.update(i, (entries[i].0, new_child))),
            None => n,
        },
        Node::Sequence(items) => match index_of(token) {
            Some(i) => if i < items.len() {
                Node::Sequence(items.update(i as int, new_child))
            } else {
                n
            },
            None => n,
        },
        _ => n,
    }
}

/// The node reached from `n` by following `keys` one after another.
pub open spec fn descend(n: Node, keys: Seq<Seq<char>>) -> Option<Node>
    decreases keys.len(),
{
    if keys.len() == 0 {
        Some(n)
    } else {
        match child(n, keys[0]) {
            Some(c) => descend(c, keys.skip(1)),
            None => None,
        }
    }
}

/// `n` with the node that `keys` lead to replaced by `leaf`; `n` itself where
/// they lead nowhere.
pub open spec fn graft(n: Node, keys: Seq<Seq<char>>, leaf: Node) -> Node
    decreases keys.len(),
{
    if keys.len() == 0 {
        leaf
    } else {
        match child(n, keys[0]) {
            Some(c) => with_child(n, keys[0], graft(c, keys.skip(1), leaf)),
            None => n,
        }
    }
}

/// The node of `n` that `pointer` addresses. The empty pointer addresses `n`
/// itself; any other pointer starts with `/` and names one key after another.
pub open spec fn resolve(n: Node, pointer: Seq<char>) -> Option<Node> {
    if pointer.len() == 0 {
        Some(n)
    } else if pointer[0] != '/' {
        None
    } else {
        descend(n, tokens(pointer.skip(1)))
    }
}

/// `n` with the node that `pointer` addresses replaced by `leaf`; `n` itself
/// where the pointer addresses nothing.
pub open spec fn replace(n: Node, pointer: Seq<char>, leaf: Node) -> Node {
    if pointer.len() == 0 {
        leaf
    } else if pointer[0] != '/' {
        n
    } else {
        graft(n, tokens(pointer.skip(1)), leaf)
    }
}

/// The views of a vector of strings, in order.
pub open spec fn token_views(keys: Seq<String>) -> Seq<Seq<char>> {
    Seq::new(keys.len(), |i: int| keys[i]@)
}

/// Where the first `k` characters of `s` hold no `/` and the next one, if any,
/// is a `/`, the first `/` of `s` is at `k`.
pub proof fn lemma_first_slash(s: Seq<char>, k: int)
    requires
        0 <= k <= s.len(),
        forall|j: int| 0 <= j < k ==> s[j] != '/',
        k < s.len() ==> s[k] == '/',
    ensures
        first_slash(s) == k,
    decreases k,
{
    if k > 0 {
        let rest = s.skip(1);
        assert forall|j: int| 0 <= j < k - 1 implies rest[j] != '/' by {
            assert(rest[j] == s[j + 1]);
        }
        lemma_first_slash(rest, k - 1);
    }
}

fn replace_pass(s: &str, code: char, with: char) -> (out: String)
    ensures
        out@ == replace_escape(s@, code, with),
{
    let n = s.unicode_len();
    let mut out = String::new();
    let mut i: usize = 0;
    assert(s@.skip(0) =~= s@);
    assert(out@ + replace_escape(s@, code, with) =~= replace_escape(s@, code, with));
    while i < n
        invariant
            n == s@.len(),
            i <= n,
            out@ + replace_escape(s@.skip(i as int), code, with) == replace_escape(s@, code, with),
        decreases n - i,
    {
        let c = s.get_char(i);
        let ghost rest = s@.skip(i as int);
        assert(rest[0] == c);
        if c == '~' && i + 1 < n && s.get_char(i + 1) == code {
            assert(rest[1] == code);
            assert(rest.skip(2) =~= s@.skip(i + 2));
            let ghost before = out@;
            out.push(with);
            assert(out@ + replace_escape(s@.skip(i + 2), code, with) =~= before + (seq![with]
                + replace_escape(rest.skip(2), code, with)));
            i += 2;
        } else {
            assert(rest.skip(1) =~= s@.skip(i + 1));
            let ghost before = out@;
            out.push(c);
            assert(out@ + replace_escape(s@.skip(i + 1), code, with) =~= before + (seq![c]
                + replace_escape(rest.skip(1), code, with)));
            i += 1;
        }
    }
    assert(s@.skip(n as int) =~= Seq::<char>::empty());
    assert(out@ + Seq::<char>::empty() =~= out@);
    out
}

fn unescape_segment(s: &str) -> (out: String)
    ensures
        out@ == unescape(s@),
{
    let slashes = replace_pass(s, '1', '/');
    replace_pass(slashes.as_str(), '0', '~')
}

fn pointer_tokens(pointer: &str) -> (keys: Vec<String>)
    requires
        pointer@.len() > 0,
        pointer@[0] == '/',
    ensures
        token_views(keys@) == tokens(pointer@.skip(1)),
{
    let n = pointer.unicode_len();
    let mut keys: Vec<String> = Vec::new();
    let mut start: usize = 1;
    let mut i: usize = 1;
    while i < n
        invariant
            n == pointer@.len(),
            1 <= start <= i <= n,
            forall|j: int| start <= j < i ==> pointer@[j] != '/',
            token_views(keys@) + tokens(pointer@.skip(start as int)) == tokens(pointer@.skip(1)),
        decreases n - i,
    {
        if pointer.get_char(i) == '/' {
            let piece = pointer.substring_char(start, i);
            let key = unescape_segment(piece);
            proof {
                let tail = pointer@.skip(start as int);
                assert forall|j: int| 0 <= j < i - start implies tail[j] != '/' by {
                    assert(tail[j] == pointer@[start + j]);
                }
                lemma_first_slash(tail, i - start);
                assert(tail.take(i - start) =~= pointer@.subrange(start as int, i as int));
                assert(tail.skip(i - start + 1) =~= pointer@.skip(i + 1));
                assert(token_views(keys@.push(key)) =~= token_views(keys@).push(key@));
                assert(token_views(keys@).push(key@) + tokens(pointer@.skip(i + 1)) =~= token_views(
                    keys@,
                ) + (seq![key@] + tokens(pointer@.skip(i + 1))));
            }
            keys.push(key);
            start = i + 1;
        }
        i += 1;
    }
    let piece = pointer.substring_char(start, n);
    let key = unescape_segment(piece);
    proof {
        let tail = pointer@.skip(start as int);
        assert forall|j: int| 0 <= j < n - start implies tail[j] != '/' by {
            assert(tail[j] == pointer@[start + j]);
        }
        lemma_first_slash(tail, n - start);
        assert(tail =~= pointer@.subrange(start as int, n as int));
        assert(token_views(keys@.push(key)) =~= token_views(keys@).push(key@));
        assert(token_views(keys@).push(key@) =~= token_views(keys@) + seq![key@]);
    }
    keys.push(key);
    keys
}

fn find_key(entries: &Vec<(Value, Value)>, key: &String) -> (r: Option<usize>)
    ensures
        match r {
            Some(i) => i < entries.len() && key_position(entry_models(entries@), key@, 0) == Some(
                i as int,
            ),
            None => key_position(entry_models(entries@), key@, 0) is None,
        },
{
    let mut i: usize = 0;
    while i < entries.len()
        invariant
            i <= entries.len(),
            key_position(entry_models(entries@), key@, 0) == key_position(
                entry_models(entries@),
                key@,
                i as int,
            ),
        decreases entries.len() - i,
    {
        let found = match &entries[i].0 {
            Value::String(s) => *s == *key,
            _ => false,
        };
        assert(entry_models(entries@)[i as int].0 == model(entries[i as int].0));
        assert(found == (model(entries[i as int].0) == Node::String(key@)));
        if found {
            return Some(i);
        }
        i += 1;
    }
    None
}

/// The tree of a sequence in which the item at `i` alone was replaced.
pub proof fn lemma_sequence_replaced(items: Vec<Value>, i: int)
    requires
        0 <= i < items.len(),
    ensures
        forall|other: Vec<Value>|
            other@.len() == items@.len() && (forall|j: int|
                0 <= j < items.len() && j != i ==> other@[j] == items@[j])
                ==> #[trigger] model(Value::Sequence(other)) == Node::Sequence(
                models(items@).update(i, model(other@[i])),
            ),
{
    assert forall|other: Vec<Value>|
        other@.len() == items@.len() && (forall|j: int|
            0 <= j < items.len() && j != i ==> other@[j] == items@[j])
        implies #[trigger] model(Value::Sequence(other)) == Node::Sequence(
        models(items@).update(i, model(other@[i])),
    ) by {
        lemma_sequence_model(other);
        assert(models(other@) =~= models(items@).update(i, model(other@[i])));
    }
}

/// The tree of a mapping in which the value of the entry at `i` alone was
/// replaced.
pub proof fn lemma_mapping_replaced(entries: Vec<(Value, Value)>, i: int)
    requires
        0 <= i < entries.len(),
    ensures
        forall|other: Vec<(Value, Value)>|
            other@.len() == entries@.len() && other@[i].0 == entries@[i].0 && (forall|j: int|
                0 <= j < entries.len() && j != i ==> other@[j] == entries@[j])
                ==> #[trigger] model(Value::Mapping(other)) == Node::Mapping(
                entry_models(entries@).update(i, (model(entries@[i].0), model(other@[i].1))),
            ),
{
    assert forall|other: Vec<(Value, Value)>|
        other@.len() == entries@.len() && other@[i].0 == entries@[i].0 && (forall|j: int|
            0 <= j < entries.len() && j != i ==> other@[j] == entries@[j])
        implies #[trigger] model(Value::Mapping(other)) == Node::Mapping(
        entry_models(entries@).update(i, (model(entries@[i].0), model(other@[i].1))),
    ) by {
        lemma_mapping_model(other);
        assert(entry_models(other@) =~= entry_models(entries@).update(
            i,
            (model(entries@[i].0), model(other@[i].1)),
        ));
    }
}

fn walk<'a>(value: &'a mut Value, keys: &Vec<String>, from: usize) -> (r: Option<&'a mut Value>)
    requires
        from <= keys.len(),
    ensures
        match r {
            Some(node) => {
                &&& descend(old(value)@, token_views(keys@).skip(from as int)) == Some(node@)
                &&& final(value)@ == graft(
                    old(value)@,
                    token_views(keys@).skip(from as int),
                    final(node)@,
                )
            },
            None => {
                &&& descend(old(value)@, token_views(keys@).skip(from as int)) is None
                &&& final(value)@ == old(value)@
            },
        },
    decreases keys.len() - from,
{
    let ghost rest = token_views(keys@).skip(from as int);
    if from == keys.len() {
        return Some(value);
    }
    assert(rest[0] == keys[from as int]@);
    assert(rest.skip(1) =~= token_views(keys@).skip(from + 1));
    match value {
        Value::Mapping(entries) => {
            proof {
                lemma_mapping_model(*entries);
            }
            match find_key(entries, &keys[from]) {
                Some(i) => {
                    proof {
                        lemma_mapping_replaced(*entries, i as int);
                        assert(entry_models(entries@).update(
                            i as int,
                            (model(entries@[i as int].0), model(entries@[i as int].1)),
                        ) =~= entry_models(entries@));
                    }
                    walk(&mut entries[i].1, keys, from + 1)
                },
                None => None,
            }
        },
        Value::Sequence(items) => {
            proof {
                lemma_sequence_model(*items);
            }
            match parse_index(keys[from].as_str()) {
                Some(i) => {
                    if i < items.len() {
                        proof {
                            lemma_sequence_replaced(*items, i as int);
                            assert(models(items@).update(i as int, model(items@[i as int]))
                                =~= models(items@));
                        }
                        walk(&mut items[i], keys, from + 1)
                    } else {
                        None
                    }
                },
                None => None,
            }
        },
        _ => None,
    }
}

/// Resolves `pointer` against `value` and hands out the node it addresses, for
/// reading or for overwriting in place.
///
/// The empty pointer addresses `value` itself. Any other pointer must start
/// with `/`; its segments are unescaped and followed one by one, a mapping by
/// key and a sequence by index. Where a segment names nothing the result is
/// `None` and `value` is left as it was.
pub fn json_pointer<'a>(value: &'a mut Value, pointer: &str) -> (r: Option<&'a mut Value>)
    ensures
        match r {
            Some(node) => {
                &&& resolve(old(value)@, pointer@) == Some(node@)
                &&& final(value)@ == replace(old(value)@, pointer@, final(node)@)
            },
            None => {
                &&& resolve(old(value)@, pointer@) is None
                &&& final(value)@ == old(value)@
            },
        },
{
    let n = pointer.unicode_len();
    if n == 0 {
        return Some(value);
    }
    if pointer.get_char(0) != '/' {
        return None;
    }
    let keys = pointer_tokens(pointer);
    assert(token_views(keys@).skip(0) =~= token_views(keys@));
    walk(value, &keys, 0)
}

/// Replacing the value of one entry moves no key.
pub proof fn lemma_key_position_kept(
    entries: Seq<(Node, Node)>,
    key: Seq<char>,
    i: int,
    new_child: Node,
    from: int,
)
    requires
        0 <= i < entries.len(),
    ensures
        key_position(entries.update(i, (entries[i].0, new_child)), key, from) == key_position(
            entries,
            key,
            from,
        ),
    decreases entries.len() - from,
{
    if 0 <= from < entries.len() {
        lemma_key_position_kept(entries, key, i, new_child, from + 1);
    }
}

/// A child that was put in place is the child found there.
pub proof fn lemma_child_of_with_child(n: Node, token: Seq<char>, new_child: Node)
    requires
        child(n, token) is Some,
    ensures
        child(with_child(n, token, new_child), token) == Some(new_child),
{
    match n {
        Node::Mapping(entries) => {
            let i = key_position(entries, token, 0)->Some_0;
            lemma_key_position_found(entries, token, 0);
            lemma_key_position_kept(entries, token, i, new_child, 0);
        },
        _ => {},
    }
}

/// A key that is found is found at a place inside the entries.
pub proof fn lemma_key_position_found(entries: Seq<(Node, Node)>, key: Seq<char>, from: int)
    requires
        key_position(entries, key, from) is Some,
    ensures
        from <= key_position(entries, key, from)->Some_0 < entries.len(),
        0 <= from,
    decreases entries.len() - from,
{
    if 0 <= from < entries.len() && entries[from].0 != Node::String(key) {
        lemma_key_position_found(entries, key, from + 1);
    }
}

/// Putting a child back where it was changes nothing.
pub proof fn lemma_with_same_child(n: Node, token: Seq<char>)
    requires
        child(n, token) is Some,
    ensures
        with_child(n, token, child(n, token)->Some_0) == n,
{
    match n {
        Node::Mapping(entries) => {
            let i = key_position(entries, token, 0)->Some_0;
            lemma_key_position_found(entries, token, 0);
            assert(entries.update(i, (entries[i].0, entries[i].1)) =~= entries);
        },
        Node::Sequence(items) => {
            let i = index_of(token)->Some_0 as int;
            assert(items.update(i, items[i]) =~= items);
        },
        _ => {},
    }
}

/// Following keys into a tree in which a leaf was grafted at the end of the
/// same keys leads to that leaf.
pub proof fn lemma_descend_graft(n: Node, keys: Seq<Seq<char>>, leaf: Node)
    requires
        descend(n, keys) is Some,
    ensures
        descend(graft(n, keys, leaf), keys) == Some(leaf),
    decreases keys.len(),
{
    if keys.len() > 0 {
        let c = child(n, keys[0])->Some_0;
        lemma_descend_graft(c, keys.skip(1), leaf);
        lemma_child_of_with_child(n, keys[0], graft(c, keys.skip(1), leaf));
    }
}

/// Grafting at the end of keys that lead nowhere changes nothing.
pub proof fn lemma_graft_nowhere(n: Node, keys: Seq<Seq<char>>, leaf: Node)
    requires
        descend(n, keys) is None,
    ensures
        graft(n, keys, leaf) == n,
    decreases keys.len(),
{
    if keys.len() > 0 {
        if child(n, keys[0]) is Some {
            let c = child(n, keys[0])->Some_0;
            lemma_graft_nowhere(c, keys.skip(1), leaf);
            lemma_with_same_child(n, keys[0]);
        }
    }
}

/// Round trip: after the node that a pointer addresses was overwritten, the
/// same pointer resolves to what was written.
pub proof fn lemma_resolve_after_replace(n: Node, pointer: Seq<char>, leaf: Node)
    requires
        resolve(n, pointer) is Some,
    ensures
        resolve(replace(n, pointer, leaf), pointer) == Some(leaf),
{
    if pointer.len() > 0 {
        lemma_descend_graft(n, tokens(pointer.skip(1)), leaf);
    }
}

/// A pointer that addresses nothing leaves the tree as it is, whatever was to
/// be written.
pub proof fn lemma_replace_unresolved(n: Node, pointer: Seq<char>, leaf: Node)
    requires
        resolve(n, pointer) is None,
    ensures
        replace(n, pointer, leaf) == n,
{
    if pointer.len() > 0 && pointer[0] == '/' {
        lemma_graft_nowhere(n, tokens(pointer.skip(1)), leaf);
    }
}

/// Grafting the node that keys lead to at the end of the same keys changes
/// nothing.
pub proof fn lemma_graft_same(n: Node, keys: Seq<Seq<char>>)
    requires
        descend(n, keys) is Some,
    ensures
        graft(n, keys, descend(n, keys)->Some_0) == n,
    decreases keys.len(),
{
    if keys.len() > 0 {
        let c = child(n, keys[0])->Some_0;
        lemma_graft_same(c, keys.skip(1));
        lemma_with_same_child(n, keys[0]);
    }
}

/// Writing back what a pointer addresses changes nothing.
pub proof fn lemma_replace_same(n: Node, pointer: Seq<char>)
    requires
        resolve(n, pointer) is Some,
    ensures
        replace(n, pointer, resolve(n, pointer)->Some_0) == n,
{
    if pointer.len() > 0 {
        lemma_graft_same(n, tokens(pointer.skip(1)));
    }
}

/// A copy of the node that `pointer` addresses in `value`, which stays as it
/// is.
pub fn read_field(value: &mut Value, pointer: &str) -> (r: Option<Value>)
    ensures
        final(value)@ == old(value)@,
        match r {
            Some(copy) => resolve(old(value)@, pointer@) == Some(copy@),
            None => resolve(old(value)@, pointer@) is None,
        },
{
    proof {
        if resolve(old(value)@, pointer@) is Some {
            lemma_replace_same(old(value)@, pointer@);
        }
    }
    match json_pointer(value, pointer) {
        Some(node) => Some(node.duplicate()),
        None => None,
    }
}

} // verus!
