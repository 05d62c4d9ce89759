use vstd::prelude::*;
use crate::user::{User, UserView};

verus! {

/// The lowercase hexadecimal digit of `d`.
pub open spec fn hex_digit(d: u128) -> char {
    if d < 10 {
        ('0' as u128 + d) as char
    } else {
        ('a' as u128 + d - 10) as char
    }
}

/// The hyphenated lowercase form of the 128-bit id `id`, most significant
/// digit first, in groups of 8, 4, 4, 4 and 12 digits.
pub open spec fn uuid_text(id: u128) -> Seq<char> {
    let h = Seq::new(32, |i: int| hex_digit((id >> ((124 - 4 * i) as u128)) & 0xf));
    h.subrange(0, 8) + seq!['-'] + h.subrange(8, 12) + seq!['-'] + h.subrange(12, 16) + seq!['-']
        + h.subrange(16, 20) + seq!['-'] + h.subrange(20, 32)
}

/// Relies on `uuid::Uuid::new_v4` and `as_u128`: a random id.
#[verifier::external_body]
fn random_session_id() -> (r: u128) {
    uuid::Uuid::new_v4().as_u128()
}

/// Relies on `uuid::Uuid::from_u128` and its `Display`, which writes the
/// hyphenated lowercase form.
#[verifier::external_body]
fn session_id_text(id: u128) -> (r: String)
    ensures
        r@ == uuid_text(id),
{
    uuid::Uuid::from_u128(id).to_string()
}

/// One live connection: a random id, the handle that sends to it, and its user.
pub struct CanvaDotSession<T> {
    id: u128,
    session: T,
    user: User,
}

impl<T> CanvaDotSession<T> {
    pub closed spec fn id_value(&self) -> u128 {
        self.id
    }

    pub closed spec fn handle(&self) -> T {
        self.session
    }

    pub closed spec fn owner(&self) -> User {
        self.user
    }

    /// A session on the handle `session` for `user`, with a fresh random id.
    pub fn new(session: T, user: User) -> (r: CanvaDotSession<T>)
        ensures
            r.handle() == session,
            r.owner() == user,
    {
        CanvaDotSession { id: random_session_id(), session, user }
    }

    /// The id in its hyphenated textual form.
    pub fn id(&self) -> (r: String)
        ensures
            r@ == uuid_text(self.id_value()),
    {
        session_id_text(self.id)
    }

    /// The id as a number.
    pub fn id_number(&self) -> (r: u128)
        ensures
            r == self.id_value(),
    {
        self.id
    }

    pub fn user(&self) -> (r: &User)
        ensures
            *r == self.owner(),
    {
        &self.user
    }

    /// The handle that sends to this session.
    pub fn session(&self) -> (r: &T)
        ensures
            *r == self.handle(),
    {
        &self.session
    }
}

impl<T> PartialEq for CanvaDotSession<T> {
    fn eq(&self, other: &CanvaDotSession<T>) -> (r: bool)
        ensures
            r == (self.id_value() == other.id_value()),
    {
        self.id == other.id
    }
}

impl<T> vstd::std_specs::cmp::PartialEqSpecImpl for CanvaDotSession<T> {
    open spec fn obeys_eq_spec() -> bool {
        true
    }

    open spec fn eq_spec(&self, other: &CanvaDotSession<T>) -> bool {
        self.id_value() == other.id_value()
    }
}

/// A live connection in the older form: a random id, its handle and its user.
pub struct WsSession<T> {
    id: u128,
    session: T,
    user: User,
}

impl<T> WsSession<T> {
    pub closed spec fn id_value(&self) -> u128 {
        self.id
    }

    pub closed spec fn handle(&self) -> T {
        self.session
    }

    pub closed spec fn owner(&self) -> UserView {
        self.user@
    }

    /// A session on the handle `session` for `user`, with a fresh random id.
    pub fn new(session: T, user: User) -> (r: WsSession<T>)
        ensures
            r.handle() == session,
            r.owner() == user@,
    {
        WsSession { id: random_session_id(), session, user }
    }

    /// A copy of the session's user.
    pub fn user(&self) -> (r: User)
        ensures
            r@ == self.owner(),
    {
        self.user.replica()
    }

    /// The session's user, to change in place.
    pub fn user_mut(&mut self) -> (r: &mut User)
        ensures
            r@ == old(self).owner(),
            final(self).owner() == final(r)@,
            final(self).id_value() == old(self).id_value(),
            final(self).handle() == old(self).handle(),
    {
        &mut self.user
    }

    /// The handle that sends to this session.
    pub fn session(&self) -> (r: &T)
        ensures
            *r == self.handle(),
    {
        &self.session
    }

    /// The id as a number.
    pub fn id_number(&self) -> (r: u128)
        ensures
            r == self.id_value(),
    {
        self.id
    }
}

impl<T> PartialEq for WsSession<T> {
    fn eq(&self, other: &WsSession<T>) -> (r: bool)
        ensures
            r == (self.id_value() == other.id_value()),
    {
        self.id == other.id
    }
}

impl<T> vstd::std_specs::cmp::PartialEqSpecImpl for WsSession<T> {
    open spec fn obeys_eq_spec() -> bool {
        true
    }

    open spec fn eq_spec(&self, other: &WsSession<T>) -> bool {
        self.id_value() == other.id_value()
    }
}

/// `s` with every `id` left out, the rest in order.
pub open spec fn without(s: Seq<u128>, id: u128) -> Seq<u128>
    decreases s.len(),
{
    if s.len() == 0 {
        s
    } else if s.last() == id {
        without(s.drop_last(), id)
    } else {
        without(s.drop_last(), id).push(s.last())
    }
}

/// `s` with every id of `gone` left out, the rest in order.
pub open spec fn without_all(s: Seq<u128>, gone: Seq<u128>) -> Seq<u128>
    decreases gone.len(),
{
    if gone.len() == 0 {
        s
    } else {
        without(without_all(s, gone.drop_last()), gone.last())
    }
}

/// All live sessions: the receivers of every broadcast.
pub struct SessionRegistry<T> {
    sessions: Vec<CanvaDotSession<T>>,
}

impl<T> SessionRegistry<T> {
    /// The ids of the sessions, in the order they were added.
    pub closed spec fn ids(&self) -> Seq<u128> {
        Seq::new(self.sessions@.len(), |i: int| self.sessions@[i].id_value())
    }

    /// The sessions, in the order they were added.
    pub closed spec fn members(&self) -> Seq<CanvaDotSession<T>> {
        self.sessions@
    }

    /// No two sessions share an id.
    pub open spec fn wf(&self) -> bool {
        self.ids().no_duplicates()
    }

    pub fn new() -> (r: SessionRegistry<T>)
        ensures
            r.ids() == Seq::<u128>::empty(),
            r.wf(),
    {
        let r = SessionRegistry { sessions: Vec::new() };
        assert(r.ids() =~= Seq::<u128>::empty());
        r
    }

    pub fn len(&self) -> (r: usize)
        ensures
            r == self.ids().len(),
    {
        self.sessions.len()
    }

    /// The `i`-th session.
    pub fn get(&self, i: usize) -> (r: &CanvaDotSession<T>)
        requires
            i < self.ids().len(),
        ensures
            *r == self.members()[i as int],
            r.id_value() == self.ids()[i as int],
    {
        &self.sessions[i]
    }

    /// Whether a session with this id is registered.
    pub fn contains(&self, id: u128) -> (r: bool)
        ensures
            r == self.ids().contains(id),
    {
        let mut i: usize = 0;
        while i < self.sessions.len()
            invariant
                i <= self.sessions.len(),
                forall|j: int| 0 <= j < i ==> self.ids()[j] != id,
            decreases self.sessions.len() - i,
        {
            if self.sessions[i].id == id {
                assert(self.ids()[i as int] == id);
                return true;
            }
            i = i + 1;
        }
        false
    }

    /// Registers `session`, unless its id is taken already; says whether it did.
    pub fn add(&mut self, session: CanvaDotSession<T>) -> (r: bool)
        requires
            old(self).wf(),
        ensures
            final(self).wf(),
            r == !old(self).ids().contains(session.id_value()),
            r ==> final(self).ids() == old(self).ids().push(session.id_value())
                && final(self).members() == old(self).members().push(session),
            !r ==> final(self).ids() == old(self).ids() && final(self).members() == old(
                self,
            ).members(),
    {
        if self.contains(session.id) {
            return false;
        }
        let ghost before = self.ids();
        let ghost id = session.id_value();
        self.sessions.push(session);
        assert(self.ids() =~= before.push(id));
        assert(self.ids().no_duplicates()) by {
            assert forall|i: int, j: int|
                0 <= i < self.ids().len() && 0 <= j < self.ids().len() && i != j implies self.ids()[i]
                != self.ids()[j] by {
                if i < before.len() && j < before.len() {
                    assert(self.ids()[i] == before[i]);
                    assert(self.ids()[j] == before[j]);
                } else if i < before.len() {
                    assert(self.ids()[i] == before[i]);
                } else if j < before.len() {
                    assert(self.ids()[j] == before[j]);
                }
            }
        }
        true
    }

    /// Removes the session with this id, if there is one; says whether there
    /// was. Removing twice is harmless.
    pub fn remove(&mut self, id: u128) -> (r: bool)
        requires
            old(self).wf(),
        ensures
            final(self).wf(),
            r == old(self).ids().contains(id),
            final(self).ids() == without(old(self).ids(), id),
    {
        let ghost before = self.ids();
        let mut i: usize = 0;
        while i < self.sessions.len()
            invariant
                i <= self.sessions.len(),
                self.ids() == before,
                before == old(self).ids(),
                before.no_duplicates(),
                forall|j: int| 0 <= j < i ==> before[j] != id,
            decreases self.sessions.len() - i,
        {
            if self.sessions[i].id == id {
                assert(before[i as int] == id);
                let _ = self.sessions.remove(i);
                assert(self.ids() =~= before.remove(i as int));
                proof {
                    lemma_without_at(before, i as int, id);
                    lemma_without_no_duplicates(before, id);
                }
                assert(before.contains(id));
                assert(self.ids() == without(before, id));
                return true;
            }
            i = i + 1;
        }
        proof {
            lemma_without_absent(before, id);
        }
        false
    }

    /// Removes every session whose id is in `gone`, such as those a broadcast
    /// could not reach.
    pub fn remove_all(&mut self, gone: &Vec<u128>)
        requires
            old(self).wf(),
        ensures
            final(self).wf(),
            final(self).ids() == without_all(old(self).ids(), gone@),
    {
        let mut i: usize = 0;
        while i < gone.len()
            invariant
                i <= gone.len(),
                self.wf(),
                self.ids() == without_all(old(self).ids(), gone@.subrange(0, i as int)),
            decreases gone.len() - i,
        {
            let ghost pre = gone@.subrange(0, i as int);
            assert(gone@.subrange(0, i + 1).drop_last() == pre);
            self.remove(gone[i]);
            i = i + 1;
        }
        assert(gone@.subrange(0, gone.len() as int) == gone@);
    }
}

/// Leaving out an id that does not occur changes nothing.
pub proof fn lemma_without_absent(s: Seq<u128>, id: u128)
    requires
        forall|i: int| 0 <= i < s.len() ==> s[i] != id,
    ensures
        without(s, id) == s,
        !s.contains(id),
    decreases s.len(),
{
    if s.len() > 0 {
        assert forall|i: int| 0 <= i < s.drop_last().len() implies s.drop_last()[i] != id by {
            assert(s.drop_last()[i] == s[i]);
        }
        lemma_without_absent(s.drop_last(), id);
        assert(s.drop_last().push(s.last()) =~= s);
    }
}

/// Leaving out an id that occurs once, at `k`, removes that place.
pub proof fn lemma_without_at(s: Seq<u128>, k: int, id: u128)
    requires
        s.no_duplicates(),
        0 <= k < s.len(),
        s[k] == id,
    ensures
        without(s, id) == s.remove(k),
    decreases s.len(),
{
    let p = s.drop_last();
    if k == s.len() - 1 {
        assert forall|i: int| 0 <= i < p.len() implies p[i] != id by {
            assert(p[i] == s[i]);
        }
        lemma_without_absent(p, id);
        assert(s.remove(k) =~= p);
    } else {
        assert(s.last() != id);
        assert(p.no_duplicates()) by {
            assert forall|i: int, j: int| 0 <= i < p.len() && 0 <= j < p.len() && i != j implies p[i]
                != p[j] by {
                assert(p[i] == s[i] && p[j] == s[j]);
            }
        }
        lemma_without_at(p, k, id);
        assert(p.remove(k).push(s.last()) =~= s.remove(k));
    }
}

/// Leaving ids out keeps them distinct, and leaves no `id` behind.
pub proof fn lemma_without_no_duplicates(s: Seq<u128>, id: u128)
    requires
        s.no_duplicates(),
    ensures
        without(s, id).no_duplicates(),
        !without(s, id).contains(id),
        forall|x: u128| x != id ==> (without(s, id).contains(x) <==> s.contains(x)),
    decreases s.len(),
{
    if s.len() > 0 {
        let p = s.drop_last();
        assert(p.no_duplicates()) by {
            assert forall|i: int, j: int| 0 <= i < p.len() && 0 <= j < p.len() && i != j implies p[i]
                != p[j] by {
                assert(p[i] == s[i] && p[j] == s[j]);
            }
        }
        lemma_without_no_duplicates(p, id);
        assert forall|x: u128| x != id implies (p.contains(x) || x == s.last()) == s.contains(x) by {
            if s.contains(x) {
                let k = choose|k: int| 0 <= k < s.len() && s[k] == x;
                if k < p.len() {
                    assert(p[k] == x);
                }
            }
            if p.contains(x) {
                let k = choose|k: int| 0 <= k < p.len() && p[k] == x;
                assert(s[k] == x);
            }
            if x == s.last() {
                assert(s[s.len() - 1] == x);
            }
        }
        if s.last() != id {
            let w = without(p, id);
            assert(!p.contains(s.last())) by {
                if p.contains(s.last()) {
                    let k = choose|k: int| 0 <= k < p.len() && p[k] == s.last();
                    assert(s[k] == s[s.len() - 1]);
                }
            }
            assert(w.push(s.last()).no_duplicates()) by {
                assert forall|i: int, j: int|
                    0 <= i < w.len() + 1 && 0 <= j < w.len() + 1 && i != j implies w.push(
                    s.last(),
                )[i] != w.push(s.last())[j] by {
                    if i < w.len() && j == w.len() {
                        assert(w.contains(w[i]));
                    }
                    if j < w.len() && i == w.len() {
                        assert(w.contains(w[j]));
                    }
                }
            }
            assert forall|x: u128| true implies (w.push(s.last()).contains(x) <==> (w.contains(x)
                || x == s.last())) by {
                if w.push(s.last()).contains(x) {
                    let k = choose|k: int| 0 <= k < w.len() + 1 && w.push(s.last())[k] == x;
                    if k < w.len() {
                        assert(w[k] == x);
                    }
                }
                if w.contains(x) {
                    let k = choose|k: int| 0 <= k < w.len() && w[k] == x;
                    assert(w.push(s.last())[k] == x);
                }
                if x == s.last() {
                    assert(w.push(s.last())[w.len() as int] == x);
                }
            }
        }
    }
}

} // verus!
