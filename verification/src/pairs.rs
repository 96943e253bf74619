//! Pairs of an agent and one of its conversations.

use vstd::prelude::*;

verus! {

/// An agent and one of its conversations, by their ids.
#[derive(Debug)]
pub struct ConversationKey {
    pub agent_id: String,
    pub conversation_id: String,
}

/// The contents of a [`ConversationKey`].
pub type KeyView = (Seq<char>, Seq<char>);

impl View for ConversationKey {
    type V = KeyView;

    open spec fn view(&self) -> KeyView {
        (self.agent_id@, self.conversation_id@)
    }
}

impl Clone for ConversationKey {
    fn clone(&self) -> (copy: Self)
        ensures
            copy@ == self@,
    {
        ConversationKey {
            agent_id: self.agent_id.clone(),
            conversation_id: self.conversation_id.clone(),
        }
    }
}

/// The contents of each key.
pub open spec fn key_views(keys: Seq<ConversationKey>) -> Seq<KeyView> {
    keys.map_values(|key: ConversationKey| key@)
}

/// Whether two keys are the same.
pub fn same_key(a: &ConversationKey, b: &ConversationKey) -> (same: bool)
    ensures
        same == (a@ == b@),
{
    a.agent_id == b.agent_id && a.conversation_id == b.conversation_id
}

/// Whether a key is among others.
pub fn holds_key(keys: &Vec<ConversationKey>, key: &ConversationKey) -> (held: bool)
    ensures
        held == key_views(keys@).contains(key@),
{
    let mut i: usize = 0;
    while i < keys.len()
        invariant
            i <= keys.len(),
            forall|j: int| 0 <= j < i ==> (#[trigger] keys@[j])@ != key@,
        decreases keys.len() - i,
    {
        if same_key(&keys[i], key) {
            assert(key_views(keys@)[i as int] == key@);
            return true;
        }
        i += 1;
    }
    assert(!key_views(keys@).contains(key@)) by {
        if key_views(keys@).contains(key@) {
            let j = choose|j: int|
                0 <= j < key_views(keys@).len() && key_views(keys@)[j] == key@;
            assert(keys@[j]@ == key@);
        }
    }
    false
}

/// Each key once, where it first occurs.
pub open spec fn distinct(keys: Seq<KeyView>) -> Seq<KeyView>
    decreases keys.len(),
{
    if keys.len() == 0 {
        Seq::empty()
    } else {
        let before = distinct(keys.drop_last());
        if before.contains(keys.last()) {
            before
        } else {
            before.push(keys.last())
        }
    }
}

/// Distinct keys are the keys there are, each once.
pub proof fn distinct_keys_are_the_keys(keys: Seq<KeyView>)
    ensures
        distinct(keys).no_duplicates(),
        forall|key: KeyView| #[trigger] distinct(keys).contains(key) <==> keys.contains(key),
    decreases keys.len(),
{
    let found = distinct(keys);
    if keys.len() > 0 {
        let rest = keys.drop_last();
        let before = distinct(rest);
        distinct_keys_are_the_keys(rest);
        assert forall|key: KeyView| #[trigger] found.contains(key) <==> keys.contains(key) by {
            if found.contains(key) {
                let i = choose|i: int| 0 <= i < found.len() && found[i] == key;
                if i < before.len() {
                    assert(before[i] == key);
                    assert(before.contains(key));
                    assert(rest.contains(key));
                    let k = choose|k: int| 0 <= k < rest.len() && rest[k] == key;
                    assert(keys[k] == key);
                } else {
                    assert(keys[keys.len() - 1] == key);
                }
            }
            if keys.contains(key) {
                let k = choose|k: int| 0 <= k < keys.len() && keys[k] == key;
                if k < rest.len() {
                    assert(rest[k] == key);
                    assert(before.contains(key));
                    let i = choose|i: int| 0 <= i < before.len() && before[i] == key;
                    assert(found[i] == key);
                } else if before.contains(key) {
                    assert(found == before);
                } else {
                    assert(found[before.len() as int] == key);
                }
            }
        }
        assert(found.no_duplicates()) by {
            assert forall|i: int, j: int|
                0 <= i < found.len() && 0 <= j < found.len() && i != j implies found[i]
                != found[j] by {
                if !before.contains(keys.last()) {
                    if i == before.len() {
                        assert(before.contains(before[j]));
                    } else if j == before.len() {
                        assert(before.contains(before[i]));
                    }
                }
            }
        }
    }
}

/// Each key once, where it first occurs.
pub fn distinct_keys(keys: &Vec<ConversationKey>) -> (found: Vec<ConversationKey>)
    ensures
        key_views(found@) == distinct(key_views(keys@)),
{
    let ghost views = key_views(keys@);
    let mut found: Vec<ConversationKey> = Vec::new();
    let mut i: usize = 0;
    proof {
        assert(views.take(0) =~= Seq::empty());
        assert(key_views(found@) =~= distinct(views.take(0)));
    }
    while i < keys.len()
        invariant
            i <= keys.len(),
            views == key_views(keys@),
            key_views(found@) == distinct(views.take(i as int)),
        decreases keys.len() - i,
    {
        let ghost before = found@;
        proof {
            assert(views.take(i + 1).drop_last() =~= views.take(i as int));
            assert(views.take(i + 1).last() == keys@[i as int]@);
        }
        if !holds_key(&found, &keys[i]) {
            found.push(keys[i].clone());
            assert(key_views(found@) =~= key_views(before).push(keys@[i as int]@));
        }
        i += 1;
    }
    assert(views.take(i as int) =~= views);
    found
}

/// The contents of a run of keys are theirs, one for one and in order; a key
/// shows its agent and its conversation.
pub proof fn key_contents_are_those_of_the_keys(keys: Seq<ConversationKey>, key: ConversationKey)
    ensures
        key_views(keys).len() == keys.len(),
        forall|i: int| 0 <= i < keys.len() ==> #[trigger] key_views(keys)[i] == keys[i]@,
        key@.0 == key.agent_id@,
        key@.1 == key.conversation_id@,
{
}

/// Distinct keys come in the order in which they first occur: one more key goes
/// behind the others where it is new, and changes nothing where it is not.
pub proof fn distinct_keys_come_in_order(keys: Seq<KeyView>, key: KeyView)
    ensures
        keys.contains(key) ==> distinct(keys.push(key)) == distinct(keys),
        !keys.contains(key) ==> distinct(keys.push(key)) == distinct(keys).push(key),
{
    distinct_keys_are_the_keys(keys);
    assert(keys.push(key).drop_last() =~= keys);
    assert(distinct(keys).contains(key) <==> keys.contains(key));
}

} // verus!
