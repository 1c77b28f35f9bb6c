//! The store of everything the tracker knows: users, foods and the food log.

use vstd::prelude::*;
use crate::models::{
    BasicFood, BasicFoodView, CompositeFood, CompositeFoodView, FoodLogEntry, FoodLogEntryView,
    User, UserProfile, UserView,
};
use crate::table::{
    distinct_keys, find_key, lemma_table_copy, lemma_table_entry, lemma_table_finite,
    lemma_table_key, lemma_table_push, put, table,
};

verus! {

/// Why a user could not be stored or changed.
#[derive(Debug, Clone, Copy, PartialEq, Eq, Structural)]
pub enum UserError {
    /// Another user has this identifier.
    UserIdTaken,
    /// Another user has this user name.
    UsernameTaken,
    /// No user has this identifier.
    UserNotFound,
}

/// Why nobody was logged in.
#[derive(Debug, Clone, Copy, PartialEq, Eq, Structural)]
pub enum LoginError {
    /// No user has this user name.
    UserNotFound,
    /// The user has another password.
    IncorrectPassword,
}

/// All users, foods and log entries, together with the user who is logged in.
#[derive(Debug)]
pub struct Database {
    pub(crate) users: Vec<User>,
    pub(crate) basic_foods: Vec<BasicFood>,
    pub(crate) composite_foods: Vec<CompositeFood>,
    pub(crate) food_logs: Vec<FoodLogEntry>,
    pub(crate) current_user: String,
}

/// The mathematical model of a [`Database`].
pub struct DatabaseView {
    /// The users, by user identifier.
    pub users: Map<Seq<char>, UserView>,
    /// The basic foods, by food identifier.
    pub basic_foods: Map<Seq<char>, BasicFoodView>,
    /// The composite foods, by food identifier.
    pub composite_foods: Map<Seq<char>, CompositeFoodView>,
    /// Every log entry, in the order in which they were recorded.
    pub food_logs: Seq<FoodLogEntryView>,
    /// The identifier of the user who is logged in; empty when nobody is.
    pub current_user: Seq<char>,
}

/// The views of a list of log entries.
pub open spec fn entry_views(list: Seq<FoodLogEntry>) -> Seq<FoodLogEntryView> {
    list.map_values(|e: FoodLogEntry| e@)
}

impl DatabaseView {
    /// What holds of the model of every well-formed database: it is finite,
    /// every record is filed under its own identifier, and no two users share
    /// a user name.
    pub open spec fn wf(self) -> bool {
        &&& self.users.dom().finite()
        &&& self.basic_foods.dom().finite()
        &&& self.composite_foods.dom().finite()
        &&& forall|id: Seq<char>| #[trigger]
            self.users.contains_key(id) ==> self.users[id].user_id == id
        &&& forall|id: Seq<char>| #[trigger]
            self.basic_foods.contains_key(id) ==> self.basic_foods[id].id == id
        &&& forall|id: Seq<char>| #[trigger]
            self.composite_foods.contains_key(id) ==> self.composite_foods[id].id == id
        &&& forall|a: Seq<char>, b: Seq<char>|
            #![trigger self.users[a], self.users[b]]
            self.users.contains_key(a) && self.users.contains_key(b) && self.users[a].username
                == self.users[b].username ==> a == b
    }

    /// Some user has the user name `username`.
    pub open spec fn has_username(self, username: Seq<char>) -> bool {
        exists|id: Seq<char>|
            self.users.contains_key(id) && (#[trigger] self.users[id]).username == username
    }

    /// The user with the user name `username`, where there is one.
    pub open spec fn user_named(self, username: Seq<char>) -> UserView {
        self.users[choose|id: Seq<char>|
            self.users.contains_key(id) && (#[trigger] self.users[id]).username == username]
    }
}

/// No user name occurs twice in `users`.
pub open spec fn distinct_usernames(users: Seq<User>) -> bool {
    forall|i: int, j: int|
        0 <= i < users.len() && 0 <= j < users.len() && i != j ==> #[trigger] users[i].username@
            != #[trigger] users[j].username@
}

impl View for Database {
    type V = DatabaseView;

    open(crate) spec fn view(&self) -> DatabaseView {
        DatabaseView {
            users: table(self.users@),
            basic_foods: table(self.basic_foods@),
            composite_foods: table(self.composite_foods@),
            food_logs: entry_views(self.food_logs@),
            current_user: self.current_user@,
        }
    }
}

impl Database {
    /// No identifier and no user name is stored twice.
    pub open(crate) spec fn wf(&self) -> bool {
        &&& distinct_keys(self.users@)
        &&& distinct_usernames(self.users@)
        &&& distinct_keys(self.basic_foods@)
        &&& distinct_keys(self.composite_foods@)
    }

    /// The users in the order in which they are kept.
    pub open(crate) spec fn user_list(&self) -> Seq<User> {
        self.users@
    }

    /// The basic foods in the order in which they are kept.
    pub open(crate) spec fn basic_list(&self) -> Seq<BasicFood> {
        self.basic_foods@
    }

    /// The composite foods in the order in which they are kept.
    pub open(crate) spec fn composite_list(&self) -> Seq<CompositeFood> {
        self.composite_foods@
    }

    /// An empty database with nobody logged in.
    pub fn new() -> (db: Database)
        ensures
            db.wf(),
            db@.users == Map::<Seq<char>, UserView>::empty(),
            db@.basic_foods == Map::<Seq<char>, BasicFoodView>::empty(),
            db@.composite_foods == Map::<Seq<char>, CompositeFoodView>::empty(),
            db@.food_logs == Seq::<FoodLogEntryView>::empty(),
            db@.current_user == Seq::<char>::empty(),
    {
        let db = Database {
            users: Vec::new(),
            basic_foods: Vec::new(),
            composite_foods: Vec::new(),
            food_logs: Vec::new(),
            current_user: String::new(),
        };
        assert(db@.users =~= Map::<Seq<char>, UserView>::empty());
        assert(db@.basic_foods =~= Map::<Seq<char>, BasicFoodView>::empty());
        assert(db@.composite_foods =~= Map::<Seq<char>, CompositeFoodView>::empty());
        assert(db@.food_logs =~= Seq::<FoodLogEntryView>::empty());
        db
    }

    /// The model of a well-formed database is well formed.
    pub proof fn lemma_view_wf(&self)
        requires
            self.wf(),
        ensures
            self@.wf(),
    {
        lemma_table_finite(self.users@);
        lemma_table_finite(self.basic_foods@);
        lemma_table_finite(self.composite_foods@);
        assert forall|a: Seq<char>, b: Seq<char>|
            self@.users.contains_key(a) && self@.users.contains_key(b) && (
            #[trigger] self@.users[a]).username == (#[trigger] self@.users[b]).username implies a
            == b by {
            lemma_table_key(self.users@, a);
            lemma_table_key(self.users@, b);
        }
    }

    /// The users, in the order in which they were added.
    pub fn users(&self) -> (list: &Vec<User>)
        ensures
            list@ == self.user_list(),
            table(list@) == self@.users,
            self.wf() ==> distinct_keys(list@),
    {
        &self.users
    }

    /// The basic foods, in the order in which they were added.
    pub fn basic_foods(&self) -> (list: &Vec<BasicFood>)
        ensures
            list@ == self.basic_list(),
            table(list@) == self@.basic_foods,
            self.wf() ==> distinct_keys(list@),
    {
        &self.basic_foods
    }

    /// The composite foods, in the order in which they were added.
    pub fn composite_foods(&self) -> (list: &Vec<CompositeFood>)
        ensures
            list@ == self.composite_list(),
            table(list@) == self@.composite_foods,
            self.wf() ==> distinct_keys(list@),
    {
        &self.composite_foods
    }

    /// Every log entry, in the order in which they were recorded.
    pub fn food_logs(&self) -> (list: &Vec<FoodLogEntry>)
        ensures
            entry_views(list@) == self@.food_logs,
    {
        &self.food_logs
    }

    /// The identifier of the user who is logged in; empty when nobody is.
    pub fn current_user(&self) -> (user_id: &str)
        ensures
            user_id@ == self@.current_user,
    {
        self.current_user.as_str()
    }

    /// Stores a basic food under its identifier, in place of the basic food
    /// that had that identifier before, if there was one.
    pub fn add_basic_food(&mut self, food: BasicFood)
        requires
            old(self).wf(),
        ensures
            final(self).wf(),
            final(self)@ == (DatabaseView {
                basic_foods: old(self)@.basic_foods.insert(food.id@, food@),
                ..old(self)@
            }),
    {
        put(&mut self.basic_foods, food);
    }

    /// Stores a composite food under its identifier, in place of the
    /// composite food that had that identifier before, if there was one.
    pub fn add_composite_food(&mut self, food: CompositeFood)
        requires
            old(self).wf(),
        ensures
            final(self).wf(),
            final(self)@ == (DatabaseView {
                composite_foods: old(self)@.composite_foods.insert(food.id@, food@),
                ..old(self)@
            }),
    {
        put(&mut self.composite_foods, food);
    }

    /// The place of the user with the user name `username`, if there is one.
    fn find_username(&self, username: &str) -> (found: Option<usize>)
        requires
            self.wf(),
        ensures
            match found {
                Some(i) => i < self.users.len() && self.users[i as int].username@ == username@
                    && self@.has_username(username@) && self@.user_named(username@)
                    == self.users[i as int]@,
                None => !self@.has_username(username@) && forall|j: int|
                    0 <= j < self.users.len() ==> (#[trigger] self.users[j]).username@
                        != username@,
            },
    {
        let mut i: usize = 0;
        while i < self.users.len()
            invariant
                self.wf(),
                i <= self.users.len(),
                forall|j: int| 0 <= j < i ==> (#[trigger] self.users[j]).username@ != username@,
            decreases self.users.len() - i,
        {
            if self.users[i].username.as_str().eq(username) {
                proof {
                    lemma_table_entry(self.users@, i as int);
                    let id = self.users[i as int].user_id@;
                    assert(self@.users.contains_key(id) && self@.users[id].username == username@);
                    let chosen = choose|id: Seq<char>|
                        self@.users.contains_key(id) && (#[trigger] self@.users[id]).username
                            == username@;
                    lemma_table_key(self.users@, chosen);
                    let place = crate::table::position_of(self.users@, chosen);
                    assert(self.users[place]@ == self@.users[chosen]);
                    assert(self.users[place].username@ == self.users[i as int].username@);
                    assert(place == i);
                }
                return Some(i);
            }
            i = i + 1;
        }
        proof {
            if self@.has_username(username@) {
                let id = choose|id: Seq<char>|
                    self@.users.contains_key(id) && (#[trigger] self@.users[id]).username
                        == username@;
                lemma_table_key(self.users@, id);
            }
        }
        None
    }

    /// Whether some user has the user name `username`.
    pub fn has_user_named(&self, username: &str) -> (found: bool)
        requires
            self.wf(),
        ensures
            found == self@.has_username(username@),
    {
        self.find_username(username).is_some()
    }

    /// Adds a user, unless the identifier or the user name is taken.
    pub fn add_user(&mut self, user: User) -> (result: Result<(), UserError>)
        requires
            old(self).wf(),
        ensures
            final(self).wf(),
            match result {
                Ok(_) => {
                    &&& !old(self)@.users.contains_key(user.user_id@)
                    &&& !old(self)@.has_username(user.username@)
                    &&& final(self)@ == (DatabaseView {
                        users: old(self)@.users.insert(user.user_id@, user@),
                        ..old(self)@
                    })
                },
                Err(UserError::UserIdTaken) => {
                    &&& old(self)@.users.contains_key(user.user_id@)
                    &&& final(self)@ == old(self)@
                },
                Err(UserError::UsernameTaken) => {
                    &&& !old(self)@.users.contains_key(user.user_id@)
                    &&& old(self)@.has_username(user.username@)
                    &&& final(self)@ == old(self)@
                },
                Err(UserError::UserNotFound) => false,
            },
    {
        if find_key(&self.users, user.user_id.as_str()).is_some() {
            return Err(UserError::UserIdTaken);
        }
        if self.find_username(user.username.as_str()).is_some() {
            return Err(UserError::UsernameTaken);
        }
        proof {
            lemma_table_push(self.users@, user);
            let after = self.users@.push(user);
            assert forall|a: int, b: int|
                0 <= a < after.len() && 0 <= b < after.len() && a != b implies (
                #[trigger] after[a]).username@ != (#[trigger] after[b]).username@ by {
                if a < self.users.len() && b < self.users.len() {
                    assert(self.users[a].username@ != self.users[b].username@);
                } else if a < self.users.len() {
                    assert(self.users[a].username@ != user.username@);
                } else {
                    assert(self.users[b].username@ != user.username@);
                }
            }
        }
        self.users.push(user);
        Ok(())
    }

    /// Replaces the profile of the user `user_id`.
    pub fn update_profile(&mut self, user_id: &str, profile: UserProfile) -> (result: Result<
        (),
        UserError,
    >)
        requires
            old(self).wf(),
        ensures
            final(self).wf(),
            match result {
                Ok(_) => {
                    &&& old(self)@.users.contains_key(user_id@)
                    &&& final(self)@ == (DatabaseView {
                        users: old(self)@.users.insert(
                            user_id@,
                            UserView { profile, ..old(self)@.users[user_id@] },
                        ),
                        ..old(self)@
                    })
                },
                Err(e) => {
                    &&& e == UserError::UserNotFound
                    &&& !old(self)@.users.contains_key(user_id@)
                    &&& final(self)@ == old(self)@
                },
            },
    {
        match find_key(&self.users, user_id) {
            None => Err(UserError::UserNotFound),
            Some(i) => {
                let current: &User = &self.users[i];
                let changed = User {
                    user_id: current.user_id.clone(),
                    username: current.username.clone(),
                    password: current.password.clone(),
                    profile,
                };
                proof {
                    lemma_table_entry(self.users@, i as int);
                    crate::table::lemma_table_replace(self.users@, i as int, changed);
                    let after = self.users@.update(i as int, changed);
                    assert forall|a: int, b: int|
                        0 <= a < after.len() && 0 <= b < after.len() && a != b implies (
                        #[trigger] after[a]).username@ != (#[trigger] after[b]).username@ by {
                        assert(after[a].username@ == self.users[a].username@);
                        assert(after[b].username@ == self.users[b].username@);
                    }
                }
                self.users.set(i, changed);
                Ok(())
            },
        }
    }

    /// Logs in the user with the user name `username`, if `password` is
    /// that user's password.
    pub fn log_in(&mut self, username: &str, password: &str) -> (result: Result<(), LoginError>)
        requires
            old(self).wf(),
        ensures
            final(self).wf(),
            match result {
                Ok(_) => {
                    &&& old(self)@.has_username(username@)
                    &&& old(self)@.user_named(username@).password == password@
                    &&& final(self)@ == (DatabaseView {
                        current_user: old(self)@.user_named(username@).user_id,
                        ..old(self)@
                    })
                },
                Err(LoginError::UserNotFound) => {
                    &&& !old(self)@.has_username(username@)
                    &&& final(self)@ == old(self)@
                },
                Err(LoginError::IncorrectPassword) => {
                    &&& old(self)@.has_username(username@)
                    &&& old(self)@.user_named(username@).password != password@
                    &&& final(self)@ == old(self)@
                },
            },
    {
        match self.find_username(username) {
            None => Err(LoginError::UserNotFound),
            Some(i) => {
                if self.users[i].password.as_str().eq(password) {
                    self.current_user = self.users[i].user_id.clone();
                    Ok(())
                } else {
                    Err(LoginError::IncorrectPassword)
                }
            },
        }
    }

    /// Takes up the session of the user `user_id` again, as after loading
    /// a stored database, and says whether there is such a user.
    pub fn resume_session(&mut self, user_id: &str) -> (resumed: bool)
        requires
            old(self).wf(),
        ensures
            final(self).wf(),
            resumed == old(self)@.users.contains_key(user_id@),
            final(self)@ == if resumed {
                DatabaseView { current_user: user_id@, ..old(self)@ }
            } else {
                old(self)@
            },
    {
        if find_key(&self.users, user_id).is_some() {
            proof {
                lemma_table_entry(
                    self.users@,
                    choose|i: int| 0 <= i < self.users.len() && self.users[i].user_id@ == user_id@,
                );
            }
            self.current_user = user_id.to_owned();
            true
        } else {
            false
        }
    }

    /// Logs out whoever is logged in.
    pub fn log_out(&mut self)
        requires
            old(self).wf(),
        ensures
            final(self).wf(),
            final(self)@ == (DatabaseView { current_user: Seq::<char>::empty(), ..old(self)@ }),
    {
        self.current_user = String::new();
    }
}

impl Default for Database {
    /// An empty database with nobody logged in.
    fn default() -> (db: Database)
        ensures
            db.wf(),
            db@.users == Map::<Seq<char>, UserView>::empty(),
            db@.basic_foods == Map::<Seq<char>, BasicFoodView>::empty(),
            db@.composite_foods == Map::<Seq<char>, CompositeFoodView>::empty(),
            db@.food_logs == Seq::<FoodLogEntryView>::empty(),
            db@.current_user == Seq::<char>::empty(),
    {
        Database::new()
    }
}

impl Clone for Database {
    /// An independent copy, as a snapshot to return to.
    fn clone(&self) -> (copy: Database)
        ensures
            self.wf() ==> copy.wf() && copy@ == self@,
    {
        let mut users: Vec<User> = Vec::new();
        let mut i: usize = 0;
        while i < self.users.len()
            invariant
                i <= self.users.len(),
                users.len() == i,
                forall|j: int| 0 <= j < i ==> (#[trigger] users[j])@ == self.users[j]@,
            decreases self.users.len() - i,
        {
            users.push(self.users[i].clone());
            i = i + 1;
        }
        let mut basic_foods: Vec<BasicFood> = Vec::new();
        i = 0;
        while i < self.basic_foods.len()
            invariant
                i <= self.basic_foods.len(),
                basic_foods.len() == i,
                forall|j: int| 0 <= j < i ==> (#[trigger] basic_foods[j])@ == self.basic_foods[j]@,
            decreases self.basic_foods.len() - i,
        {
            basic_foods.push(self.basic_foods[i].clone());
            i = i + 1;
        }
        let mut composite_foods: Vec<CompositeFood> = Vec::new();
        i = 0;
        while i < self.composite_foods.len()
            invariant
                i <= self.composite_foods.len(),
                composite_foods.len() == i,
                forall|j: int|
                    0 <= j < i ==> (#[trigger] composite_foods[j])@ == self.composite_foods[j]@,
            decreases self.composite_foods.len() - i,
        {
            composite_foods.push(self.composite_foods[i].clone());
            i = i + 1;
        }
        let mut food_logs: Vec<FoodLogEntry> = Vec::new();
        i = 0;
        while i < self.food_logs.len()
            invariant
                i <= self.food_logs.len(),
                food_logs.len() == i,
                forall|j: int| 0 <= j < i ==> (#[trigger] food_logs[j])@ == self.food_logs[j]@,
            decreases self.food_logs.len() - i,
        {
            food_logs.push(self.food_logs[i].clone());
            i = i + 1;
        }
        let copy = Database {
            users,
            basic_foods,
            composite_foods,
            food_logs,
            current_user: self.current_user.clone(),
        };
        proof {
            if self.wf() {
                lemma_table_copy(self.users@, copy.users@);
                lemma_table_copy(self.basic_foods@, copy.basic_foods@);
                lemma_table_copy(self.composite_foods@, copy.composite_foods@);
                assert(entry_views(copy.food_logs@) =~= entry_views(self.food_logs@));
                assert forall|a: int, b: int|
                    0 <= a < copy.users.len() && 0 <= b < copy.users.len() && a != b implies (
                    #[trigger] copy.users[a]).username@ != (#[trigger] copy.users[b]).username@ by {
                    assert(copy.users[a]@ == self.users[a]@);
                    assert(copy.users[b]@ == self.users[b]@);
                    assert(self.users[a].username@ != self.users[b].username@);
                }
            }
        }
        copy
    }
}

} // verus!
