//! The store of captured messages: a sequence in the order of arrival.

use crate::models::{Email, EmailView};
use vstd::prelude::*;

verus! {

/// The position of the first message with the identifier `id`, or the number
/// of messages where none has it.
pub open spec fn position_of(messages: Seq<EmailView>, id: Seq<char>) -> int
    decreases messages.len(),
{
    if messages.len() == 0 || messages.first().id == id {
        0
    } else {
        1 + position_of(messages.drop_first(), id)
    }
}

/// `position_of` is the least position whose message has the identifier.
pub proof fn lemma_position_of(messages: Seq<EmailView>, id: Seq<char>)
    ensures
        0 <= position_of(messages, id) <= messages.len(),
        forall|j: int| 0 <= j < position_of(messages, id) ==> (#[trigger] messages[j]).id != id,
        position_of(messages, id) < messages.len() ==> messages[position_of(messages, id)].id == id,
    decreases messages.len(),
{
    if messages.len() == 0 || messages.first().id == id {
    } else {
        let t = messages.drop_first();
        lemma_position_of(t, id);
        assert forall|j: int| 0 <= j < position_of(messages, id) implies (#[trigger] messages[j]).id
            != id by {
            if j > 0 {
                assert(messages[j] == t[j - 1]);
            }
        }
    }
}

/// A message with the identifier after only messages without it is the first.
pub proof fn lemma_position_is(messages: Seq<EmailView>, id: Seq<char>, k: int)
    requires
        0 <= k <= messages.len(),
        forall|j: int| 0 <= j < k ==> (#[trigger] messages[j]).id != id,
        k < messages.len() ==> messages[k].id == id,
    ensures
        position_of(messages, id) == k,
{
    lemma_position_of(messages, id);
    let f = position_of(messages, id);
    if f < k {
        assert(messages[f].id != id);
    }
}

/// Whether some message has the identifier `id`.
pub open spec fn holds_id(messages: Seq<EmailView>, id: Seq<char>) -> bool {
    0 <= position_of(messages, id) < messages.len()
}

/// What a sequence of messages holds.
pub open spec fn emails_view(v: Seq<Email>) -> Seq<EmailView> {
    Seq::new(v.len(), |i: int| v[i]@)
}

/// The captured messages, in the order in which they arrived.
#[derive(Debug)]
pub struct Store {
    emails: Vec<Email>,
}

impl View for Store {
    type V = Seq<EmailView>;

    closed spec fn view(&self) -> Seq<EmailView> {
        emails_view(self.emails@)
    }
}

impl Store {
    /// An empty store.
    pub fn new() -> (out: Store)
        ensures
            out@ == Seq::<EmailView>::empty(),
    {
        let out = Store { emails: Vec::new() };
        assert(out@ =~= Seq::<EmailView>::empty());
        out
    }

    /// A store that holds `emails`.
    pub fn from_vec(emails: Vec<Email>) -> (out: Store)
        ensures
            out@ == emails_view(emails@),
    {
        Store { emails }
    }

    /// The number of messages.
    pub fn len(&self) -> (out: usize)
        ensures
            out == self@.len(),
    {
        self.emails.len()
    }

    /// Whether the store holds no message.
    pub fn is_empty(&self) -> (out: bool)
        ensures
            out == (self@.len() == 0),
    {
        self.emails.len() == 0
    }

    /// Adds a message at the end.
    pub fn append(&mut self, email: Email)
        ensures
            final(self)@ == old(self)@.push(email@),
    {
        self.emails.push(email);
        assert(self@ =~= old(self)@.push(email@));
    }

    /// A copy of every message, in order.
    pub fn list(&self) -> (out: Vec<Email>)
        ensures
            emails_view(out@) == self@,
    {
        let mut out: Vec<Email> = Vec::new();
        let mut i: usize = 0;
        while i < self.emails.len()
            invariant
                i <= self.emails@.len(),
                out@.len() == i,
                forall|j: int| 0 <= j < i ==> out@[j]@ == self.emails@[j]@,
            decreases self.emails@.len() - i,
        {
            out.push(self.emails[i].clone());
            i += 1;
        }
        assert(emails_view(out@) =~= self@);
        out
    }

    /// The position of the first message with the identifier `id`.
    fn find(&self, id: &str) -> (out: usize)
        ensures
            out == position_of(self@, id@),
            out <= self.emails@.len(),
    {
        let key: String = id.to_owned();
        let mut i: usize = 0;
        while i < self.emails.len() && self.emails[i].id != key
            invariant
                i <= self.emails@.len(),
                key@ == id@,
                forall|j: int| 0 <= j < i ==> (#[trigger] self@[j]).id != id@,
            decreases self.emails@.len() - i,
        {
            i += 1;
        }
        proof {
            lemma_position_is(self@, id@, i as int);
        }
        i
    }

    /// A copy of the first message with the identifier `id`.
    pub fn get(&self, id: &str) -> (out: Option<Email>)
        ensures
            match out {
                Some(email) => holds_id(self@, id@) && email@ == self@[position_of(self@, id@)],
                None => !holds_id(self@, id@),
            },
    {
        let at: usize = self.find(id);
        if at < self.emails.len() {
            Some(self.emails[at].clone())
        } else {
            None
        }
    }

    /// The first message with the identifier `id`.
    pub fn get_ref(&self, id: &str) -> (out: Option<&Email>)
        ensures
            match out {
                Some(email) => holds_id(self@, id@) && email@ == self@[position_of(self@, id@)],
                None => !holds_id(self@, id@),
            },
    {
        let at: usize = self.find(id);
        if at < self.emails.len() {
            Some(&self.emails[at])
        } else {
            None
        }
    }

    /// Removes the first message with the identifier `id`. Tells whether
    /// there was one.
    pub fn delete(&mut self, id: &str) -> (out: bool)
        ensures
            out == holds_id(old(self)@, id@),
            final(self)@ == if out {
                old(self)@.remove(position_of(old(self)@, id@))
            } else {
                old(self)@
            },
    {
        let at: usize = self.find(id);
        if at < self.emails.len() {
            self.emails.remove(at);
            assert(self@ =~= old(self)@.remove(at as int));
            true
        } else {
            false
        }
    }

    /// Removes every message.
    pub fn clear(&mut self)
        ensures
            final(self)@ == Seq::<EmailView>::empty(),
    {
        self.emails.clear();
        assert(self@ =~= Seq::<EmailView>::empty());
    }
}

/// The store after the messages are appended one at a time, first to last.
pub open spec fn after_appends(store: Seq<EmailView>, emails: Seq<EmailView>) -> Seq<EmailView>
    decreases emails.len(),
{
    if emails.len() == 0 {
        store
    } else {
        after_appends(store, emails.drop_last()).push(emails.last())
    }
}

/// Appending messages one at a time loses none and doubles none: the store
/// is what it was, followed by the messages in the order of their arrival.
pub proof fn law_appends(store: Seq<EmailView>, emails: Seq<EmailView>)
    ensures
        after_appends(store, emails) == store + emails,
        after_appends(store, emails).len() == store.len() + emails.len(),
    decreases emails.len(),
{
    if emails.len() == 0 {
        assert(store + emails =~= store);
    } else {
        law_appends(store, emails.drop_last());
        assert((store + emails.drop_last()).push(emails.last()) =~= store + emails);
    }
}

/// In whatever order the same messages arrive, the store holds the same
/// messages afterwards, each as often as it arrived, and as many in all.
pub proof fn law_appends_any_order(
    store: Seq<EmailView>,
    one_order: Seq<EmailView>,
    other_order: Seq<EmailView>,
)
    requires
        one_order.to_multiset() == other_order.to_multiset(),
    ensures
        after_appends(store, one_order).to_multiset() == after_appends(
            store,
            other_order,
        ).to_multiset(),
        after_appends(store, one_order).len() == after_appends(store, other_order).len(),
        after_appends(store, one_order).len() == store.len() + one_order.len(),
{
    law_appends(store, one_order);
    law_appends(store, other_order);
    vstd::seq_lib::lemma_multiset_commutative(store, one_order);
    vstd::seq_lib::lemma_multiset_commutative(store, other_order);
    vstd::seq_lib::to_multiset_len(one_order);
    vstd::seq_lib::to_multiset_len(other_order);
}

/// A listing of a store that was cleared is empty.
pub proof fn law_list_after_clear(listed: Seq<Email>)
    requires
        emails_view(listed) == Seq::<EmailView>::empty(),
    ensures
        listed.len() == 0,
{
    assert(emails_view(listed).len() == listed.len());
}

/// Removing the first message with an identifier removes exactly that
/// message: the others stay, in their order.
pub proof fn law_delete_removes_one(store: Seq<EmailView>, id: Seq<char>)
    requires
        holds_id(store, id),
    ensures
        ({
            let at = position_of(store, id);
            let after = store.remove(at);
            &&& store[at].id == id
            &&& after.len() == store.len() - 1
            &&& forall|j: int| 0 <= j < at ==> after[j] == store[j]
            &&& forall|j: int| at <= j < after.len() ==> after[j] == store[j + 1]
        }),
{
    lemma_position_of(store, id);
}

} // verus!
