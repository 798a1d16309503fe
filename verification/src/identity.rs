//! Resolving a workspace's raw name into its key and label, once per
//! window-manager identifier.

use vstd::prelude::*;
use vstd::string::*;
use vstd::std_specs::hash::*;
use std::collections::HashMap;
use crate::text::{non_ascii_only, parse_number, parse_usize, strip_ascii};
use crate::visibility::LiveWorkspace;

verus! {

/// The glyph shown where a label would otherwise be empty.
pub const PLACEHOLDER: char = '\u{f111}';

/// The numeric part of a workspace name does not denote a number.
#[derive(Clone, Copy, Debug, PartialEq, Eq, Structural)]
pub struct ParseError {}

/// What an event says of a workspace: its identifier and, where given, its
/// name and the output it is on.
pub struct Node {
    pub id: usize,
    pub name: Option<String>,
    pub output: Option<String>,
}

/// Whether the first separator `;` of `name` stands at `i`.
pub open spec fn splits_at(name: Seq<char>, i: int) -> bool {
    &&& 0 <= i < name.len()
    &&& name[i] == ';'
    &&& forall|j: int| 0 <= j < i ==> name[j] != ';'
}

/// The label for what follows the separator: its characters outside the
/// ASCII range, or the placeholder where there are none.
pub open spec fn label_of(rest: Seq<char>) -> Seq<char> {
    let glyphs = non_ascii_only(rest);
    if glyphs.len() == 0 {
        seq![PLACEHOLDER]
    } else {
        glyphs
    }
}

/// Key and label that the raw name `name` stands for, or `None` where its
/// numeric part denotes no number. Without a separator the whole name is
/// both the number and the label.
pub open spec fn fresh_identity(name: Seq<char>) -> Option<(usize, Seq<char>)> {
    if exists|i: int| splits_at(name, i) {
        let i = choose|i: int| splits_at(name, i);
        match parse_number(name.take(i)) {
            Some(key) => Some((key, label_of(name.skip(i + 1)))),
            None => None,
        }
    } else {
        match parse_number(name) {
            Some(key) => Some((key, name)),
            None => None,
        }
    }
}

/// What resolving `id` with the raw name `name` gives under the memo `memo`:
/// the remembered pair where there is one, whatever the name.
pub open spec fn resolve(memo: Map<usize, (usize, Seq<char>)>, id: usize, name: Seq<char>) -> Option<
    (usize, Seq<char>),
> {
    if memo.contains_key(id) {
        Some(memo[id])
    } else {
        fresh_identity(name)
    }
}

/// The key that resolving `id` with the raw name `name` gives, where it
/// gives one.
pub open spec fn resolved_key(memo: Map<usize, (usize, Seq<char>)>, id: usize, name: Seq<char>) -> usize {
    let pair = resolve(memo, id, name)->0;
    pair.0
}

/// The memo after resolving `id` with the raw name `name`: a new pair is
/// remembered, a remembered one is never replaced.
pub open spec fn remember(memo: Map<usize, (usize, Seq<char>)>, id: usize, name: Seq<char>) -> Map<
    usize,
    (usize, Seq<char>),
> {
    match resolve(memo, id, name) {
        Some(pair) => memo.insert(id, pair),
        None => memo,
    }
}

/// The position of the first separator in `name`, if it has one.
pub fn find_separator(name: &str) -> (r: Option<usize>)
    ensures
        match r {
            Some(i) => splits_at(name@, i as int),
            None => forall|i: int| !splits_at(name@, i),
        },
{
    let n = name.unicode_len();
    let mut i: usize = 0;
    while i < n
        invariant
            i <= n,
            n == name@.len(),
            forall|j: int| 0 <= j < i ==> name@[j] != ';',
        decreases n - i,
    {
        if name.get_char(i) == ';' {
            return Some(i);
        }
        i += 1;
    }
    None
}

/// Key and label of the raw name `name`, read afresh.
pub fn parse_identity(name: &str) -> (r: Result<(usize, String), ParseError>)
    ensures
        match fresh_identity(name@) {
            Some(pair) => r is Ok && r->Ok_0.0 == pair.0 && r->Ok_0.1@ == pair.1,
            None => r is Err,
        },
{
    let n = name.unicode_len();
    match find_separator(name) {
        Some(i) => {
            proof {
                let c = choose|c: int| splits_at(name@, c);
                assert(splits_at(name@, i as int));
                assert(c == i) by {
                    if c < i {
                        assert(name@[c] != ';');
                    } else if c > i {
                        assert(name@[i as int] != ';');
                    }
                }
                assert(name@.take(i as int) =~= name@.subrange(0, i as int));
                assert(name@.skip(i + 1) =~= name@.subrange(i + 1, n as int));
            }
            let number = parse_usize(name.substring_char(0, i));
            let mut label = strip_ascii(name.substring_char(i + 1, n));
            if label.as_str().unicode_len() == 0 {
                proof {
                    reveal_strlit("\u{f111}");
                }
                label.append("\u{f111}");
                assert(label@ =~= seq![PLACEHOLDER]);
            }
            match number {
                Some(key) => Ok((key, label)),
                None => Err(ParseError {  }),
            }
        },
        None => {
            match parse_usize(name) {
                Some(key) => Ok((key, String::from_str(name))),
                None => Err(ParseError {  }),
            }
        },
    }
}

/// The memo of resolved identities: one pair of key and label per
/// window-manager identifier, written once and never changed.
pub struct IdentityCache {
    entries: HashMap<usize, (usize, String)>,
}

impl IdentityCache {
    /// The remembered pairs, by identifier.
    pub closed spec fn view(&self) -> Map<usize, (usize, Seq<char>)> {
        Map::new(
            |id: usize| self.entries@.contains_key(id),
            |id: usize| (self.entries@[id].0, self.entries@[id].1@),
        )
    }

    /// A memo that remembers nothing.
    pub fn new() -> (cache: IdentityCache)
        ensures
            cache@ == Map::<usize, (usize, Seq<char>)>::empty(),
    {
        let cache = IdentityCache { entries: HashMap::new() };
        assert(cache@ =~= Map::<usize, (usize, Seq<char>)>::empty());
        cache
    }

    /// The key that resolving `id` with the raw name `name` would give, with
    /// nothing remembered on the way.
    pub fn peek_key(&self, id: &usize, name: &str) -> (key: Option<usize>)
        ensures
            key is Some <==> resolve(self@, *id, name@) is Some,
            key is Some ==> key->0 == resolved_key(self@, *id, name@),
    {
        broadcast use group_hash_axioms;

        match self.entries.get(id) {
            Some(pair) => Some(pair.0),
            None => match parse_identity(name) {
                Ok(pair) => Some(pair.0),
                Err(_) => None,
            },
        }
    }
}

/// Resolves the workspace `id` to its key and label. A pair remembered for
/// `id` is returned whatever `name` holds; otherwise `name` is read, and the
/// pair is remembered for good.
pub fn get_name_key(cache: &mut IdentityCache, id: &usize, name: &str) -> (r: Result<
    (usize, String),
    ParseError,
>)
    ensures
        final(cache)@ == remember(old(cache)@, *id, name@),
        match resolve(old(cache)@, *id, name@) {
            Some(pair) => r is Ok && r->Ok_0.0 == pair.0 && r->Ok_0.1@ == pair.1,
            None => r is Err,
        },
{
    broadcast use group_hash_axioms;

    let remembered = match cache.entries.get(id) {
        Some(pair) => Some((pair.0, pair.1.clone())),
        None => None,
    };
    match remembered {
        Some(pair) => {
            assert(cache@ =~= old(cache)@.insert(*id, (pair.0, pair.1@)));
            Ok(pair)
        },
        None => match parse_identity(name) {
            Ok(pair) => {
                let key = pair.0;
                let label = pair.1.clone();
                cache.entries.insert(*id, pair);
                assert(cache@ =~= old(cache)@.insert(*id, (key, label@)));
                Ok((key, label))
            },
            Err(e) => {
                assert(cache@ =~= old(cache)@);
                Err(e)
            },
        },
    }
}

/// Resolves the workspace that an event speaks of by its identifier and name.
pub fn get_name_key_from_node(cache: &mut IdentityCache, node: &Node) -> (r: Result<
    (usize, String),
    ParseError,
>)
    requires
        node.name is Some,
    ensures
        final(cache)@ == remember(old(cache)@, node.id, node.name->0@),
        match resolve(old(cache)@, node.id, node.name->0@) {
            Some(pair) => r is Ok && r->Ok_0.0 == pair.0 && r->Ok_0.1@ == pair.1,
            None => r is Err,
        },
{
    let name = node.name.as_ref().unwrap();
    get_name_key(cache, &node.id, name.as_str())
}

/// Resolves a live workspace by its identifier and name.
pub fn get_name_key_from_workspace(cache: &mut IdentityCache, workspace: &LiveWorkspace) -> (r:
    Result<(usize, String), ParseError>)
    ensures
        final(cache)@ == remember(old(cache)@, workspace.id, workspace.name@),
        match resolve(old(cache)@, workspace.id, workspace.name@) {
            Some(pair) => r is Ok && r->Ok_0.0 == pair.0 && r->Ok_0.1@ == pair.1,
            None => r is Err,
        },
{
    get_name_key(cache, &workspace.id, workspace.name.as_str())
}

} // verus!
