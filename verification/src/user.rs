//! The user directory: principal to user, with uniqueness of principal,
//! token subject and directory id across all entries.  Creation rejects
//! any collision; lookups are by any of the three identities.

use vstd::prelude::*;

use crate::date_time::DateTime;
use crate::principal::UserPrincipal;
use crate::strutil::str_eq;
use crate::uuid::Uuid;

verus! {

pub type UserSub = String;

pub type UserDbId = Uuid;

/// A directory entry: the token subject, the directory id, and the
/// creation time.  Entries are never changed or removed.
#[derive(Debug, Clone)]
pub struct User {
    pub jwt_sub: UserSub,
    pub db_id: UserDbId,
    pub created_at: DateTime,
}

/// The view of a directory entry.
pub struct UserView {
    pub jwt_sub: Seq<char>,
    pub db_id: Uuid,
    pub created_at: DateTime,
}

impl View for User {
    type V = UserView;

    open spec fn view(&self) -> UserView {
        UserView { jwt_sub: self.jwt_sub@, db_id: self.db_id, created_at: self.created_at }
    }
}

impl User {
    pub open spec fn wf(&self) -> bool {
        self.created_at.wf()
    }

    /// Builds an entry from a subject, the text of a directory id, and
    /// the current time.
    pub fn new(jwt_sub: UserSub, db_id: &str, now_secs: u64) -> (r: Result<User, String>)
        ensures
            r is Ok <==> (crate::uuid::spec_uuid_parse(db_id@) is Some && now_secs
                <= crate::date_time::MAX_DATE_TIME_SECS),
            r is Ok ==> ({
                let u = r->Ok_0;
                &&& u.jwt_sub@ == jwt_sub@
                &&& Some(u.db_id) == crate::uuid::spec_uuid_parse(db_id@)
                &&& u.created_at.secs == now_secs
                &&& u.wf()
            }),
            crate::uuid::spec_uuid_parse(db_id@) is None ==> (r matches Err(m) && m@
                == crate::uuid::spec_uuid_parse_error(db_id@)),
            crate::uuid::spec_uuid_parse(db_id@) is Some && now_secs
                > crate::date_time::MAX_DATE_TIME_SECS ==> (r matches Err(m) && m@
                == "Failed to convert timestamp to date time"@),
    {
        let parsed = Uuid::try_from_text(db_id)?;
        let created_at = DateTime::new(now_secs)?;
        Ok(User { jwt_sub, db_id: parsed, created_at })
    }

    /// A copy of this entry.
    pub fn duplicate(&self) -> (u: User)
        ensures
            u.jwt_sub@ == self.jwt_sub@,
            u.db_id == self.db_id,
            u.created_at == self.created_at,
            u.wf() == self.wf(),
    {
        User {
            jwt_sub: self.jwt_sub.clone(),
            db_id: self.db_id,
            created_at: self.created_at,
        }
    }
}

/// The first entry bound to the given principal bytes.
pub open spec fn spec_user_at(entries: Seq<(UserPrincipal, User)>, p: Seq<u8>) -> Option<UserView>
    decreases entries.len(),
{
    if entries.len() == 0 {
        None
    } else if entries.first().0@ == p {
        Some(entries.first().1@)
    } else {
        spec_user_at(entries.drop_first(), p)
    }
}

/// The first entry whose subject is the given one, with its principal.
pub open spec fn spec_user_by_sub(entries: Seq<(UserPrincipal, User)>, sub: Seq<char>) -> Option<
    (Seq<u8>, UserView),
>
    decreases entries.len(),
{
    if entries.len() == 0 {
        None
    } else if entries.first().1.jwt_sub@ == sub {
        Some((entries.first().0@, entries.first().1@))
    } else {
        spec_user_by_sub(entries.drop_first(), sub)
    }
}

/// The first entry whose directory id is the given one, with its
/// principal.
pub open spec fn spec_user_by_db_id(entries: Seq<(UserPrincipal, User)>, db_id: Uuid) -> Option<
    (Seq<u8>, UserView),
>
    decreases entries.len(),
{
    if entries.len() == 0 {
        None
    } else if entries.first().1.db_id == db_id {
        Some((entries.first().0@, entries.first().1@))
    } else {
        spec_user_by_db_id(entries.drop_first(), db_id)
    }
}

/// The user directory.
#[derive(Debug)]
pub struct UserRepository {
    pub entries: Vec<(UserPrincipal, User)>,
}

impl UserRepository {
    /// Every principal, subject and directory id appears at most once,
    /// and every entry is well-formed.
    pub open spec fn wf(&self) -> bool {
        &&& forall|i: int, j: int|
            0 <= i < j < self.entries@.len() ==> self.entries@[i].0@ != self.entries@[j].0@
        &&& forall|i: int, j: int|
            0 <= i < j < self.entries@.len() ==> self.entries@[i].1.jwt_sub@
                != self.entries@[j].1.jwt_sub@
        &&& forall|i: int, j: int|
            0 <= i < j < self.entries@.len() ==> self.entries@[i].1.db_id
                != self.entries@[j].1.db_id
        &&& forall|i: int|
            0 <= i < self.entries@.len() ==> (#[trigger] self.entries@[i]).1.wf()
                && self.entries@[i].0.wf()
    }

    /// A fresh, empty directory.
    pub fn new() -> (r: UserRepository)
        ensures
            r.entries@.len() == 0,
            r.wf(),
    {
        UserRepository { entries: Vec::new() }
    }

    /// The user at the given principal.
    pub fn get_user_by_principal(&self, user_principal: &UserPrincipal) -> (r: Option<User>)
        ensures
            match r {
                Some(u) => spec_user_at(self.entries@, user_principal@) == Some(u@),
                None => spec_user_at(self.entries@, user_principal@) is None,
            },
    {
        let n = self.entries.len();
        proof {
            assert(self.entries@.skip(0) =~= self.entries@);
        }
        for i in 0..n
            invariant
                n == self.entries@.len(),
                spec_user_at(self.entries@, user_principal@) == spec_user_at(
                    self.entries@.skip(i as int),
                    user_principal@,
                ),
        {
            proof {
                assert(self.entries@.skip(i as int).first() == self.entries@[i as int]);
                assert(self.entries@.skip(i as int).drop_first() =~= self.entries@.skip(i + 1));
            }
            if self.entries[i].0.equals(user_principal) {
                return Some(self.entries[i].1.duplicate());
            }
        }
        proof {
            assert(self.entries@.skip(n as int) =~= Seq::<(UserPrincipal, User)>::empty());
        }
        None
    }

    /// The principal and user bound to the given subject.
    pub fn get_user_by_sub(&self, user_sub: &str) -> (r: Option<(UserPrincipal, User)>)
        ensures
            match r {
                Some(pu) => spec_user_by_sub(self.entries@, user_sub@) == Some(
                    (pu.0@, pu.1@),
                ),
                None => spec_user_by_sub(self.entries@, user_sub@) is None,
            },
    {
        let n = self.entries.len();
        proof {
            assert(self.entries@.skip(0) =~= self.entries@);
        }
        for i in 0..n
            invariant
                n == self.entries@.len(),
                spec_user_by_sub(self.entries@, user_sub@) == spec_user_by_sub(
                    self.entries@.skip(i as int),
                    user_sub@,
                ),
        {
            proof {
                assert(self.entries@.skip(i as int).first() == self.entries@[i as int]);
                assert(self.entries@.skip(i as int).drop_first() =~= self.entries@.skip(i + 1));
            }
            if str_eq(self.entries[i].1.jwt_sub.as_str(), user_sub) {
                return Some((self.entries[i].0.duplicate(), self.entries[i].1.duplicate()));
            }
        }
        proof {
            assert(self.entries@.skip(n as int) =~= Seq::<(UserPrincipal, User)>::empty());
        }
        None
    }

    /// The principal and user bound to the given directory id.
    pub fn get_user_by_db_id(&self, db_id: &UserDbId) -> (r: Option<(UserPrincipal, User)>)
        ensures
            match r {
                Some(pu) => spec_user_by_db_id(self.entries@, *db_id) == Some((pu.0@, pu.1@)),
                None => spec_user_by_db_id(self.entries@, *db_id) is None,
            },
    {
        let n = self.entries.len();
        proof {
            assert(self.entries@.skip(0) =~= self.entries@);
        }
        for i in 0..n
            invariant
                n == self.entries@.len(),
                spec_user_by_db_id(self.entries@, *db_id) == spec_user_by_db_id(
                    self.entries@.skip(i as int),
                    *db_id,
                ),
        {
            proof {
                assert(self.entries@.skip(i as int).first() == self.entries@[i as int]);
                assert(self.entries@.skip(i as int).drop_first() =~= self.entries@.skip(i + 1));
            }
            if self.entries[i].1.db_id.hi == db_id.hi && self.entries[i].1.db_id.lo == db_id.lo {
                return Some((self.entries[i].0.duplicate(), self.entries[i].1.duplicate()));
            }
        }
        proof {
            assert(self.entries@.skip(n as int) =~= Seq::<(UserPrincipal, User)>::empty());
        }
        None
    }

    /// Creates a user: rejects an entry whose subject, directory id or
    /// principal is already bound, each with its message, and otherwise
    /// appends the entry.
    pub fn create_user(&mut self, user_principal: UserPrincipal, user: User) -> (r: Result<
        (),
        String,
    >)
        requires
            old(self).wf(),
            user_principal.wf(),
            user.wf(),
        ensures
            r is Ok <==> (spec_user_by_sub(old(self).entries@, user.jwt_sub@) is None
                && spec_user_by_db_id(old(self).entries@, user.db_id) is None && spec_user_at(
                old(self).entries@,
                user_principal@,
            ) is None),
            r is Ok ==> final(self).entries@ == old(self).entries@.push(
                (user_principal, user),
            ) && final(self).wf(),
            r is Err ==> final(self).entries@ == old(self).entries@,
            spec_user_by_sub(old(self).entries@, user.jwt_sub@) is Some ==> (r matches Err(m)
                && m@ == spec_sub_conflict_msg(user.jwt_sub@)),
            spec_user_by_sub(old(self).entries@, user.jwt_sub@) is None && spec_user_by_db_id(
                old(self).entries@,
                user.db_id,
            ) is Some ==> (r matches Err(m) && m@ == spec_db_conflict_msg(user.db_id)),
            spec_user_by_sub(old(self).entries@, user.jwt_sub@) is None && spec_user_by_db_id(
                old(self).entries@,
                user.db_id,
            ) is None && spec_user_at(old(self).entries@, user_principal@) is Some ==> (r matches
                Err(m) && m@ == spec_principal_conflict_msg(user_principal@)),
    {
        let sub_copy = user.jwt_sub.clone();
        if self.get_user_by_sub(sub_copy.as_str()).is_some() {
            let mut msg = String::from_str("User with sub ");
            msg.append(sub_copy.as_str());
            msg.append(" already exists");
            return Err(msg);
        }
        if self.get_user_by_db_id(&user.db_id).is_some() {
            let id_text = user.db_id.to_string();
            let mut msg = String::from_str("User with database id ");
            msg.append(id_text.as_str());
            msg.append(" already exists");
            return Err(msg);
        }
        if self.get_user_by_principal(&user_principal).is_some() {
            let p_text = user_principal.to_text();
            let mut msg = String::from_str("User with principal ");
            msg.append(p_text.as_str());
            msg.append(" already exists");
            return Err(msg);
        }
        proof {
            lemma_absent_sub(self.entries@, user.jwt_sub@);
            lemma_absent_db_id(self.entries@, user.db_id);
            lemma_absent_principal(self.entries@, user_principal@);
        }
        self.entries.push((user_principal, user));
        Ok(())
    }
}

/// The message with which a bound subject is rejected.
pub open spec fn spec_sub_conflict_msg(sub: Seq<char>) -> Seq<char> {
    "User with sub "@ + sub + " already exists"@
}

/// The message with which a bound directory id is rejected.
pub open spec fn spec_db_conflict_msg(db_id: Uuid) -> Seq<char> {
    "User with database id "@ + db_id.spec_text() + " already exists"@
}

/// The message with which a bound principal is rejected.
pub open spec fn spec_principal_conflict_msg(p: Seq<u8>) -> Seq<char> {
    "User with principal "@ + crate::principal::principal_text_of(p) + " already exists"@
}

/// An absent subject means no entry bears it.
proof fn lemma_absent_sub(entries: Seq<(UserPrincipal, User)>, sub: Seq<char>)
    requires
        spec_user_by_sub(entries, sub) is None,
    ensures
        forall|i: int| 0 <= i < entries.len() ==> (#[trigger] entries[i]).1.jwt_sub@ != sub,
    decreases entries.len(),
{
    if entries.len() > 0 {
        lemma_absent_sub(entries.drop_first(), sub);
        assert forall|i: int|
            0 <= i < entries.len() implies (#[trigger] entries[i]).1.jwt_sub@ != sub by {
            if i > 0 {
                assert(entries.drop_first()[i - 1] == entries[i]);
            }
        }
    }
}

/// An absent directory id means no entry bears it.
proof fn lemma_absent_db_id(entries: Seq<(UserPrincipal, User)>, db_id: Uuid)
    requires
        spec_user_by_db_id(entries, db_id) is None,
    ensures
        forall|i: int| 0 <= i < entries.len() ==> (#[trigger] entries[i]).1.db_id != db_id,
    decreases entries.len(),
{
    if entries.len() > 0 {
        lemma_absent_db_id(entries.drop_first(), db_id);
        assert forall|i: int|
            0 <= i < entries.len() implies (#[trigger] entries[i]).1.db_id != db_id by {
            if i > 0 {
                assert(entries.drop_first()[i - 1] == entries[i]);
            }
        }
    }
}

/// An absent principal means no entry bears it.
pub proof fn lemma_absent_principal(entries: Seq<(UserPrincipal, User)>, p: Seq<u8>)
    requires
        spec_user_at(entries, p) is None,
    ensures
        forall|i: int| 0 <= i < entries.len() ==> (#[trigger] entries[i]).0@ != p,
    decreases entries.len(),
{
    if entries.len() > 0 {
        lemma_absent_principal(entries.drop_first(), p);
        assert forall|i: int| 0 <= i < entries.len() implies (#[trigger] entries[i]).0@ != p by {
            if i > 0 {
                assert(entries.drop_first()[i - 1] == entries[i]);
            }
        }
    }
}

/// Looking up the principal of a freshly pushed entry finds it, when no
/// earlier entry bears that principal.
pub proof fn lemma_user_at_push(entries: Seq<(UserPrincipal, User)>, e: (UserPrincipal, User), p: Seq<u8>)
    requires
        spec_user_at(entries, p) is None,
        e.0@ == p,
    ensures
        spec_user_at(entries.push(e), p) == Some(e.1@),
    decreases entries.len(),
{
    if entries.len() == 0 {
        assert(entries.push(e).first() == e);
    } else {
        assert(entries.push(e).first() == entries.first());
        assert(entries.push(e).drop_first() =~= entries.drop_first().push(e));
        lemma_user_at_push(entries.drop_first(), e, p);
    }
}

/// A principal found by directory id is one of the entries' principals,
/// so it is well-formed in a well-formed directory.
pub proof fn lemma_user_by_db_id_wf(entries: Seq<(UserPrincipal, User)>, db_id: Uuid)
    requires
        forall|i: int| 0 <= i < entries.len() ==> (#[trigger] entries[i]).0.wf(),
    ensures
        spec_user_by_db_id(entries, db_id) matches Some(pu) ==> pu.0.len() <= 29,
    decreases entries.len(),
{
    if entries.len() > 0 {
        assert(entries[0] == entries.first());
        if entries.first().1.db_id == db_id {
        } else {
            let rest = entries.drop_first();
            assert forall|i: int| 0 <= i < rest.len() implies (#[trigger] rest[i]).0.wf() by {
                assert(rest[i] == entries[i + 1]);
            }
            lemma_user_by_db_id_wf(rest, db_id);
        }
    }
}

/// The user service: read access to the directory.
#[derive(Debug)]
pub struct UserService {}

impl UserService {
    pub fn new() -> (r: UserService) {
        UserService {  }
    }

    /// The user at the given principal, if any.
    pub fn get_user(&self, repo: &UserRepository, user_principal: &UserPrincipal) -> (r: Option<
        User,
    >)
        ensures
            match r {
                Some(u) => spec_user_at(repo.entries@, user_principal@) == Some(u@),
                None => spec_user_at(repo.entries@, user_principal@) is None,
            },
    {
        repo.get_user_by_principal(user_principal)
    }
}

} // verus!
