//! User registration, profiles, roles and credits.
use vstd::prelude::*;

use crate::collections::{StrMap, StrSet};
use crate::context::{CallContext, ContractError};
use crate::elearning::{all_keyed, limit_or, page_bounds, page_of, start_or_zero, ELearningContract};
use crate::models::{credit_value, same_user, CreditType, JsonUser, Roles, UserMetadata};
use crate::repository::strip_network_spec;

verus! {

/// `new` is `old` with `amount` credits added to the total of user `u`.
pub open spec fn credit_added(
    old: Map<Seq<char>, JsonUser>,
    new: Map<Seq<char>, JsonUser>,
    u: Seq<char>,
    amount: int,
) -> bool {
    &&& old.contains_key(u)
    &&& new == old.insert(u, new[u])
    &&& new[u] == JsonUser {
        metadata: UserMetadata {
            total_credit: (old[u].metadata.total_credit + amount) as u32,
            ..old[u].metadata
        },
        ..old[u]
    }
}

/// The record `create_user` makes for `user_id`.
pub open spec fn new_user_record(
    user: JsonUser,
    user_id: Seq<char>,
    nickname: Seq<char>,
    avatar: Option<String>,
    first_name: Option<String>,
    last_name: Option<String>,
    bio: Option<String>,
    now: u64,
) -> bool {
    &&& user.user_id@ == user_id
    &&& user.metadata.user_id@ == user_id
    &&& user.metadata.role == Roles::Subscriber
    &&& user.metadata.nickname@ == nickname
    &&& user.metadata.total_credit == 0
    &&& user.metadata.first_name == first_name
    &&& user.metadata.last_name == last_name
    &&& user.metadata.bio == bio
    &&& user.metadata.avatar == avatar
    &&& user.metadata.resume.is_none()
    &&& user.metadata.created_at == now
    &&& user.metadata.updated_at == now
    &&& user.metadata.courses_owned == 0
    &&& user.metadata.students == 0
    &&& user.skill@ == Map::<Seq<char>, u32>::empty()
    &&& user.certificate@.len() == 0
    &&& user.courses@.len() == 0
}

/// The profile after `update_user_information`: each given field replaced.
pub open spec fn profile_updated(
    old: UserMetadata,
    new: UserMetadata,
    nickname: Option<String>,
    first_name: Option<String>,
    last_name: Option<String>,
    bio: Option<String>,
    avatar: Option<String>,
    resume: Option<String>,
    now: u64,
) -> bool {
    new == UserMetadata {
        nickname: match nickname {
            Some(n) => n,
            None => old.nickname,
        },
        first_name: if first_name.is_some() {
            first_name
        } else {
            old.first_name
        },
        last_name: if last_name.is_some() {
            last_name
        } else {
            old.last_name
        },
        bio: if bio.is_some() {
            bio
        } else {
            old.bio
        },
        avatar: if avatar.is_some() {
            avatar
        } else {
            old.avatar
        },
        resume: if resume.is_some() {
            resume
        } else {
            old.resume
        },
        updated_at: now,
        ..old
    }
}

impl ELearningContract {
    /// Replacing a user's record by one with the same certificates and
    /// courses keeps the invariant.
    pub proof fn lemma_user_replaced(old: &ELearningContract, new: &ELearningContract, u: Seq<char>)
        requires
            old.inv(),
            *new == (ELearningContract { user_metadata_by_id: new.user_metadata_by_id, ..*old }),
            old.user_metadata_by_id@.contains_key(u),
            new.user_metadata_by_id@ == old.user_metadata_by_id@.insert(
                u,
                new.user_metadata_by_id@[u],
            ),
            new.user_metadata_by_id@[u].certificate@ == old.user_metadata_by_id@[u].certificate@,
            new.user_metadata_by_id@[u].courses@ == old.user_metadata_by_id@[u].courses@,
            new.user_metadata_by_id@[u].user_id == old.user_metadata_by_id@[u].user_id,
        ensures
            new.inv(),
    {
        assert(new.user_metadata_by_id@.dom() =~= old.user_metadata_by_id@.dom());
        assert forall|w: Seq<char>| #[trigger] new.user_metadata_by_id@.contains_key(w) implies (
        new.user_metadata_by_id@[w].certificate@ == old.user_metadata_by_id@[w].certificate@
            && new.user_metadata_by_id@[w].courses@ == old.user_metadata_by_id@[w].courses@
            && new.user_metadata_by_id@[w].user_id == old.user_metadata_by_id@[w].user_id) by {
            if w != u {
                assert(old.user_metadata_by_id@.contains_key(w));
            }
        }
        assert forall|i: int| 0 <= i < new.subscriber_users@.len() implies new.user_metadata_by_id@.contains_key(
        #[trigger] new.subscriber_users@[i]) by {
            assert(old.user_metadata_by_id@.contains_key(old.subscriber_users@[i]));
        }
        assert forall|i: int| 0 <= i < new.intructor_users@.len() implies new.user_metadata_by_id@.contains_key(
        #[trigger] new.intructor_users@[i]) by {
            assert(old.user_metadata_by_id@.contains_key(old.intructor_users@[i]));
        }
    }

    /// Adds the credits of `credit_type` to the user's total.
    pub fn add_credit(&mut self, user_id: String, credit_type: CreditType) -> (r: Result<
        (),
        ContractError,
    >)
        requires
            old(self).inv(),
        ensures
            final(self).inv(),
            r is Ok <==> (old(self).user_metadata_by_id@.contains_key(user_id@)
                && old(self).user_metadata_by_id@[user_id@].metadata.total_credit + credit_value(
                credit_type,
            ) <= u32::MAX),
            r is Ok ==> credit_added(
                old(self).user_metadata_by_id@,
                final(self).user_metadata_by_id@,
                user_id@,
                credit_value(credit_type) as int,
            ) && *final(self) == (ELearningContract {
                user_metadata_by_id: final(self).user_metadata_by_id,
                ..*old(self)
            }),
            r matches Err(e) ==> *final(self) == *old(self) && e == (
            if !old(self).user_metadata_by_id@.contains_key(user_id@) {
                ContractError::NotRegistered
            } else {
                ContractError::ArithmeticOverflow
            }),
    {
        let v = credit_type.value();
        self.internal_add_credit(user_id, v)
    }

    fn internal_add_credit(&mut self, user_id: String, v: u32) -> (r: Result<(), ContractError>)
        requires
            old(self).inv(),
        ensures
            final(self).inv(),
            r is Ok <==> (old(self).user_metadata_by_id@.contains_key(user_id@)
                && old(self).user_metadata_by_id@[user_id@].metadata.total_credit + v <= u32::MAX),
            r is Ok ==> credit_added(
                old(self).user_metadata_by_id@,
                final(self).user_metadata_by_id@,
                user_id@,
                v as int,
            ) && *final(self) == (ELearningContract {
                user_metadata_by_id: final(self).user_metadata_by_id,
                ..*old(self)
            }),
            r matches Err(e) ==> *final(self) == *old(self) && e == (
            if !old(self).user_metadata_by_id@.contains_key(user_id@) {
                ContractError::NotRegistered
            } else {
                ContractError::ArithmeticOverflow
            }),
    {
        match self.user_metadata_by_id.get(&user_id) {
            None => {
                return Err(ContractError::NotRegistered);
            },
            Some(u) => {
                if u.metadata.total_credit > u32::MAX - v {
                    return Err(ContractError::ArithmeticOverflow);
                }
            },
        }
        let ghost old_self = *self;
        let mut user = self.user_metadata_by_id.remove(&user_id).unwrap();
        user.metadata.total_credit = user.metadata.total_credit + v;
        self.user_metadata_by_id.insert(user_id, user);
        proof {
            assert(self.user_metadata_by_id@ =~= old_self.user_metadata_by_id@.insert(
                user_id@,
                self.user_metadata_by_id@[user_id@],
            ));
            Self::lemma_user_replaced(&old_self, self, user_id@);
        }
        Ok(())
    }

    /// Adds `skill_reward` credits to the signer's total.
    pub fn add_credit_by_skill_reward(&mut self, ctx: &CallContext, skill_reward: u32) -> (r: Result<
        (),
        ContractError,
    >)
        requires
            old(self).inv(),
        ensures
            final(self).inv(),
            r is Ok <==> (old(self).user_metadata_by_id@.contains_key(ctx.signer@)
                && old(self).user_metadata_by_id@[ctx.signer@].metadata.total_credit + skill_reward
                <= u32::MAX),
            r is Ok ==> credit_added(
                old(self).user_metadata_by_id@,
                final(self).user_metadata_by_id@,
                ctx.signer@,
                skill_reward as int,
            ) && *final(self) == (ELearningContract {
                user_metadata_by_id: final(self).user_metadata_by_id,
                ..*old(self)
            }),
            r matches Err(e) ==> *final(self) == *old(self) && e == (
            if !old(self).user_metadata_by_id@.contains_key(ctx.signer@) {
                ContractError::NotRegistered
            } else {
                ContractError::ArithmeticOverflow
            }),
    {
        self.internal_add_credit(ctx.signer.clone(), skill_reward)
    }

    /// Registers the signer as a subscriber. Without a nickname, the account
    /// id without its network part is used.
    pub fn create_user(
        &mut self,
        ctx: &CallContext,
        nickname: Option<String>,
        avatar: Option<String>,
        first_name: Option<String>,
        last_name: Option<String>,
        bio: Option<String>,
    ) -> (r: Result<(), ContractError>)
        requires
            old(self).inv(),
        ensures
            final(self).inv(),
            r is Ok <==> !old(self).user_metadata_by_id@.contains_key(ctx.signer@),
            r matches Err(e) ==> *final(self) == *old(self) && e == ContractError::AlreadyRegistered,
            r is Ok ==> {
                let nick = match nickname {
                    Some(n) => n@,
                    None => strip_network_spec(ctx.signer@),
                };
                &&& final(self).user_metadata_by_id@ == old(self).user_metadata_by_id@.insert(
                    ctx.signer@,
                    final(self).user_metadata_by_id@[ctx.signer@],
                )
                &&& new_user_record(
                    final(self).user_metadata_by_id@[ctx.signer@],
                    ctx.signer@,
                    nick,
                    avatar,
                    first_name,
                    last_name,
                    bio,
                    ctx.block_timestamp_ms,
                )
                &&& (if old(self).subscriber_users@.contains(ctx.signer@) {
                    final(self).subscriber_users@ == old(self).subscriber_users@
                } else {
                    final(self).subscriber_users@ == old(self).subscriber_users@.push(ctx.signer@)
                })
                &&& *final(self) == (ELearningContract {
                    user_metadata_by_id: final(self).user_metadata_by_id,
                    subscriber_users: final(self).subscriber_users,
                    ..*old(self)
                })
            },
    {
        let user_id = ctx.signer.clone();
        if self.check_registration(&user_id) {
            return Err(ContractError::AlreadyRegistered);
        }
        let new_nickname = match nickname {
            Some(value) => value,
            None => crate::repository::strip_network_str(ctx.signer.as_str()),
        };
        let user_metadata = UserMetadata {
            user_id: user_id.clone(),
            role: Roles::Subscriber,
            nickname: new_nickname,
            total_credit: 0,
            first_name,
            last_name,
            bio,
            avatar,
            resume: None,
            created_at: ctx.block_timestamp_ms,
            updated_at: ctx.block_timestamp_ms,
            courses_owned: 0,
            students: 0,
        };
        let json_user = JsonUser {
            user_id: user_id.clone(),
            metadata: user_metadata,
            skill: StrMap::new(),
            certificate: Vec::new(),
            courses: Vec::new(),
        };
        let ghost old_self = *self;
        self.user_metadata_by_id.insert(user_id.clone(), json_user);
        self.subscriber_users.insert(user_id);
        proof {
            let nu = self.user_metadata_by_id@;
            assert forall|w: Seq<char>| #[trigger] nu.contains_key(w) implies crate::elearning::all_strings_keyed(
                nu[w].certificate@,
                self.certificate_metadata_by_id@,
            ) && crate::elearning::all_strings_keyed(
                nu[w].courses@,
                self.course_metadata_by_id@,
            ) by {
                if w != ctx.signer@ {
                    assert(old_self.user_metadata_by_id@.contains_key(w));
                }
            }
            assert forall|i: int| 0 <= i < self.intructor_users@.len() implies nu.contains_key(
            #[trigger] self.intructor_users@[i]) by {
                assert(old_self.user_metadata_by_id@.contains_key(old_self.intructor_users@[i]));
            }
            assert forall|i: int| 0 <= i < self.subscriber_users@.len() implies nu.contains_key(
            #[trigger] self.subscriber_users@[i]) by {
                if i < old_self.subscriber_users@.len() {
                    assert(self.subscriber_users@[i] == old_self.subscriber_users@[i]);
                    assert(old_self.user_metadata_by_id@.contains_key(old_self.subscriber_users@[i]));
                }
            }
        }
        Ok(())
    }

    /// Makes the signer an instructor; the signer must be a subscriber with a resume.
    /// Returns a copy of the updated record.
    pub fn update_role(&mut self, ctx: &CallContext) -> (r: Result<JsonUser, ContractError>)
        requires
            old(self).inv(),
        ensures
            final(self).inv(),
            ({
                let users = old(self).user_metadata_by_id@;
                let u = ctx.signer@;
                &&& r is Ok <==> (users.contains_key(u) && users[u].metadata.role == Roles::Subscriber
                    && users[u].metadata.resume.is_some())
                &&& r matches Err(e) ==> *final(self) == *old(self) && e == (if !users.contains_key(u) {
                    ContractError::NotRegistered
                } else if users[u].metadata.role != Roles::Subscriber {
                    ContractError::AlreadyInstructor
                } else {
                    ContractError::ResumeMissing
                })
                &&& r matches Ok(rec) ==> {
                    &&& final(self).user_metadata_by_id@ == users.insert(u, final(self).user_metadata_by_id@[u])
                    &&& final(self).user_metadata_by_id@[u] == (JsonUser {
                        metadata: UserMetadata { role: Roles::Instructor, ..users[u].metadata },
                        ..users[u]
                    })
                    &&& same_user(rec, final(self).user_metadata_by_id@[u])
                    &&& (if old(self).intructor_users@.contains(u) {
                        final(self).intructor_users@ == old(self).intructor_users@
                    } else {
                        final(self).intructor_users@ == old(self).intructor_users@.push(u)
                    })
                    &&& *final(self) == (ELearningContract {
                        user_metadata_by_id: final(self).user_metadata_by_id,
                        intructor_users: final(self).intructor_users,
                        ..*old(self)
                    })
                }
            }),
    {
        let user_id = ctx.signer.clone();
        match self.user_metadata_by_id.get(&user_id) {
            None => {
                return Err(ContractError::NotRegistered);
            },
            Some(u) => {
                if u.metadata.role != Roles::Subscriber {
                    return Err(ContractError::AlreadyInstructor);
                }
                if u.metadata.resume.is_none() {
                    return Err(ContractError::ResumeMissing);
                }
            },
        }
        let ghost old_self = *self;
        let mut user = self.user_metadata_by_id.remove(&user_id).unwrap();
        user.metadata.role = Roles::Instructor;
        let copy = user.clone();
        self.user_metadata_by_id.insert(user_id.clone(), user);
        let ghost mid = *self;
        proof {
            assert(self.user_metadata_by_id@ =~= old_self.user_metadata_by_id@.insert(
                user_id@,
                self.user_metadata_by_id@[user_id@],
            ));
            Self::lemma_user_replaced(&old_self, self, user_id@);
        }
        self.intructor_users.insert(user_id);
        proof {
            assert forall|i: int| 0 <= i < self.intructor_users@.len() implies self.user_metadata_by_id@.contains_key(
            #[trigger] self.intructor_users@[i]) by {
                if i < mid.intructor_users@.len() {
                    assert(self.intructor_users@[i] == mid.intructor_users@[i]);
                    assert(all_keyed(mid.intructor_users@, mid.user_metadata_by_id@));
                }
            }
        }
        Ok(copy)
    }

    /// Updates the signer's profile: each given field replaces the stored one,
    /// and the update time is set. Returns a copy of the updated record.
    pub fn update_user_information(
        &mut self,
        ctx: &CallContext,
        nickname: Option<String>,
        first_name: Option<String>,
        last_name: Option<String>,
        bio: Option<String>,
        avatar: Option<String>,
        resume: Option<String>,
    ) -> (r: Result<JsonUser, ContractError>)
        requires
            old(self).inv(),
        ensures
            final(self).inv(),
            ({
                let users = old(self).user_metadata_by_id@;
                let u = ctx.signer@;
                &&& r is Ok <==> users.contains_key(u)
                &&& r matches Err(e) ==> *final(self) == *old(self) && e == ContractError::NotRegistered
                &&& r matches Ok(rec) ==> {
                    let nu = final(self).user_metadata_by_id@[u];
                    &&& final(self).user_metadata_by_id@ == users.insert(u, nu)
                    &&& nu == (JsonUser { metadata: nu.metadata, ..users[u] })
                    &&& profile_updated(
                        users[u].metadata,
                        nu.metadata,
                        nickname,
                        first_name,
                        last_name,
                        bio,
                        avatar,
                        resume,
                        ctx.block_timestamp_ms,
                    )
                    &&& same_user(rec, nu)
                    &&& *final(self) == (ELearningContract {
                        user_metadata_by_id: final(self).user_metadata_by_id,
                        ..*old(self)
                    })
                }
            }),
    {
        let user_id = ctx.signer.clone();
        if !self.check_registration(&user_id) {
            return Err(ContractError::NotRegistered);
        }
        let ghost old_self = *self;
        let mut user = self.user_metadata_by_id.remove(&user_id).unwrap();
        if let Some(n) = nickname {
            user.metadata.nickname = n;
        }
        if let Some(f) = first_name {
            user.metadata.first_name = Some(f);
        }
        if let Some(l) = last_name {
            user.metadata.last_name = Some(l);
        }
        if let Some(b) = bio {
            user.metadata.bio = Some(b);
        }
        if let Some(a) = avatar {
            user.metadata.avatar = Some(a);
        }
        if let Some(x) = resume {
            user.metadata.resume = Some(x);
        }
        user.metadata.updated_at = ctx.block_timestamp_ms;
        let copy = user.clone();
        self.user_metadata_by_id.insert(user_id.clone(), user);
        proof {
            assert(self.user_metadata_by_id@ =~= old_self.user_metadata_by_id@.insert(
                user_id@,
                self.user_metadata_by_id@[user_id@],
            ));
            Self::lemma_user_replaced(&old_self, self, user_id@);
        }
        Ok(copy)
    }

    /// The records of the subscribers on one page (default 20 per page).
    pub fn get_all_user_metadata(&self, from_index: Option<u32>, limit: Option<u32>) -> (r: Vec<
        &JsonUser,
    >)
        requires
            self.inv(),
        ensures
            ({
                let ids = page_of(
                    self.subscriber_users@,
                    start_or_zero(from_index),
                    limit_or(limit, 20),
                );
                &&& r@.len() == ids.len()
                &&& forall|i: int| 0 <= i < ids.len() ==> *r@[i] == self.user_metadata_by_id@[ids[i]]
            }),
    {
        self.users_on_page(&self.subscriber_users, from_index, limit)
    }

    /// The records of the instructors on one page (default 20 per page).
    pub fn get_all_instructor_metadata(&self, from_index: Option<u32>, limit: Option<u32>) -> (r: Vec<
        &JsonUser,
    >)
        requires
            self.inv(),
        ensures
            ({
                let ids = page_of(
                    self.intructor_users@,
                    start_or_zero(from_index),
                    limit_or(limit, 20),
                );
                &&& r@.len() == ids.len()
                &&& forall|i: int| 0 <= i < ids.len() ==> *r@[i] == self.user_metadata_by_id@[ids[i]]
            }),
    {
        self.users_on_page(&self.intructor_users, from_index, limit)
    }

    fn users_on_page<'a>(&'a self, set: &StrSet, from_index: Option<u32>, limit: Option<u32>) -> (r: Vec<
        &'a JsonUser,
    >)
        requires
            all_keyed(set@, self.user_metadata_by_id@),
        ensures
            ({
                let ids = page_of(set@, start_or_zero(from_index), limit_or(limit, 20));
                &&& r@.len() == ids.len()
                &&& forall|i: int| 0 <= i < ids.len() ==> *r@[i] == self.user_metadata_by_id@[ids[i]]
            }),
    {
        let (first, end) = page_bounds(set.len(), from_index, limit, 20);
        let ghost ids = page_of(set@, start_or_zero(from_index), limit_or(limit, 20));
        assert(ids.len() == end - first);
        let mut r: Vec<&JsonUser> = Vec::new();
        let mut i = first;
        while i < end
            invariant
                first <= i <= end <= set@.len(),
                ids.len() == end - first,
                forall|j: int| 0 <= j < ids.len() ==> ids[j] == set@[first + j],
                all_keyed(set@, self.user_metadata_by_id@),
                r@.len() == i - first,
                forall|j: int| 0 <= j < i - first ==> *r@[j] == self.user_metadata_by_id@[ids[j]],
            decreases end - i,
        {
            let id = set.get(i);
            assert(self.user_metadata_by_id@.contains_key(set@[i as int]));
            r.push(self.user_metadata_by_id.get(id).unwrap());
            i = i + 1;
        }
        r
    }

    /// The role of a registered user.
    pub fn get_user_role(&self, user_id: &String) -> (r: Result<Roles, ContractError>)
        ensures
            match r {
                Ok(role) => self.user_metadata_by_id@.contains_key(user_id@) && role
                    == self.user_metadata_by_id@[user_id@].metadata.role,
                Err(e) => !self.user_metadata_by_id@.contains_key(user_id@) && e
                    == ContractError::NotRegistered,
            },
    {
        match self.user_metadata_by_id.get(user_id) {
            Some(u) => Ok(u.metadata.role),
            None => Err(ContractError::NotRegistered),
        }
    }

    /// The record of a user, if registered.
    pub fn get_user_metadata_by_user_id(&self, user_id: &String) -> (r: Option<&JsonUser>)
        ensures
            match r {
                Some(u) => self.user_metadata_by_id@.contains_key(user_id@) && *u
                    == self.user_metadata_by_id@[user_id@],
                None => !self.user_metadata_by_id@.contains_key(user_id@),
            },
    {
        self.user_metadata_by_id.get(user_id)
    }
}

} // verus!
