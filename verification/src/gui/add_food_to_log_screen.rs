//! The form that records what was eaten.

use vstd::prelude::*;
use crate::app_state::AppState;
use crate::database::{Database, DatabaseView};
use crate::models::{BasicFood, CompositeFood, FoodLogEntry, FoodLogEntryView};
use crate::search::{keywords_match, parse_words, words_of};
use crate::text::texts;

verus! {

/// A food offered for selection.
#[derive(Debug)]
pub struct FoodChoice {
    pub id: String,
    pub name: String,
}

/// A food as the filter sees it: identifier, name and keywords.
pub type FoodRow = (Seq<char>, Seq<char>, Seq<Seq<char>>);

/// Identifier and name of each choice.
pub open spec fn choice_views(list: Seq<FoodChoice>) -> Seq<(Seq<char>, Seq<char>)> {
    list.map_values(|choice: FoodChoice| (choice.id@, choice.name@))
}

/// The rows of the basic foods.
pub open spec fn basic_rows(list: Seq<BasicFood>) -> Seq<FoodRow> {
    list.map_values(|food: BasicFood| (food@.id, food@.name, food@.keywords))
}

/// The rows of the composite foods.
pub open spec fn composite_rows(list: Seq<CompositeFood>) -> Seq<FoodRow> {
    list.map_values(|food: CompositeFood| (food@.id, food@.name, food@.keywords))
}

/// Identifier and name of the rows whose keywords pass the filter, in order.
pub open spec fn passing(rows: Seq<FoodRow>, filter: Seq<Seq<char>>, match_all: bool) -> Seq<
    (Seq<char>, Seq<char>),
>
    decreases rows.len(),
{
    if rows.len() == 0 {
        Seq::empty()
    } else if keywords_match(rows.last().2, filter, match_all) {
        passing(rows.drop_last(), filter, match_all).push((rows.last().0, rows.last().1))
    } else {
        passing(rows.drop_last(), filter, match_all)
    }
}

/// The state of the form: the food and the servings to record, the day on
/// which to record them, and the filter on the foods offered.
#[derive(Debug)]
pub struct AddFoodToLogScreen {
    pub selected_food_id: String,
    /// Thousandths of a serving.
    pub servings: u64,
    /// The words of the filter, separated by white space.
    pub keywords: String,
    pub match_all_keywords: bool,
    /// The day, written as `YYYY-MM-DD`.
    pub selected_date: String,
}

impl AddFoodToLogScreen {
    /// The entry that the form describes for the user `user_id`.
    pub open spec fn entry(&self, user_id: Seq<char>) -> FoodLogEntryView {
        FoodLogEntryView {
            date: self.selected_date@,
            food_id: self.selected_food_id@,
            servings: self.servings,
            user_id,
        }
    }

    /// A form for the day `today`: one serving, no food selected, no filter.
    pub fn new(today: String) -> (screen: Self)
        ensures
            screen.selected_food_id@ == Seq::<char>::empty(),
            screen.servings == 1000,
            screen.keywords@ == Seq::<char>::empty(),
            screen.match_all_keywords,
            screen.selected_date == today,
    {
        Self {
            selected_food_id: String::new(),
            servings: 1000,
            keywords: String::new(),
            match_all_keywords: true,
            selected_date: today,
        }
    }

    /// Whether the keywords of a food pass the filter words under the
    /// form's setting of whether all words must be found.
    pub fn matches_keywords(
        &self,
        food_keywords: &Vec<String>,
        filter_keywords: &Vec<String>,
    ) -> (passes: bool)
        ensures
            passes == keywords_match(
                texts(food_keywords@),
                texts(filter_keywords@),
                self.match_all_keywords,
            ),
    {
        crate::search::matches_keywords(food_keywords, filter_keywords, self.match_all_keywords)
    }

    /// The foods that pass the form's filter: the basic foods first, then
    /// the composite foods, each group in the order in which the database
    /// keeps it.
    pub fn choices(&self, db: &Database) -> (list: Vec<FoodChoice>)
        ensures
            choice_views(list@) == passing(
                basic_rows(db.basic_list()),
                words_of(self.keywords@),
                self.match_all_keywords,
            ) + passing(
                composite_rows(db.composite_list()),
                words_of(self.keywords@),
                self.match_all_keywords,
            ),
    {
        let filter = parse_words(self.keywords.as_str());
        let basic = db.basic_foods();
        let composite = db.composite_foods();
        let ghost words = words_of(self.keywords@);
        let ghost all = self.match_all_keywords;
        let mut list: Vec<FoodChoice> = Vec::new();
        let mut i: usize = 0;
        assert(basic_rows(basic@).take(0) =~= Seq::<FoodRow>::empty());
        assert(choice_views(list@) =~= Seq::<(Seq<char>, Seq<char>)>::empty());
        while i < basic.len()
            invariant
                i <= basic.len(),
                texts(filter@) == words,
                all == self.match_all_keywords,
                choice_views(list@) == passing(basic_rows(basic@).take(i as int), words, all),
            decreases basic.len() - i,
        {
            let food = &basic[i];
            let ghost before = choice_views(list@);
            proof {
                let longer = basic_rows(basic@).take(i + 1);
                assert(longer.drop_last() =~= basic_rows(basic@).take(i as int));
                assert(longer.last() == (food@.id, food@.name, food@.keywords));
            }
            if self.matches_keywords(&food.keywords, &filter) {
                list.push(FoodChoice { id: food.id.clone(), name: food.name.clone() });
                assert(choice_views(list@) =~= before.push((food@.id, food@.name)));
            }
            i = i + 1;
        }
        assert(basic_rows(basic@).take(i as int) =~= basic_rows(basic@));
        let ghost first = choice_views(list@);
        let mut j: usize = 0;
        assert(composite_rows(composite@).take(0) =~= Seq::<FoodRow>::empty());
        assert(first + Seq::<(Seq<char>, Seq<char>)>::empty() =~= first);
        while j < composite.len()
            invariant
                j <= composite.len(),
                texts(filter@) == words,
                all == self.match_all_keywords,
                choice_views(list@) == first + passing(
                    composite_rows(composite@).take(j as int),
                    words,
                    all,
                ),
            decreases composite.len() - j,
        {
            let food = &composite[j];
            let ghost before = choice_views(list@);
            let ghost second = passing(composite_rows(composite@).take(j as int), words, all);
            proof {
                let longer = composite_rows(composite@).take(j + 1);
                assert(longer.drop_last() =~= composite_rows(composite@).take(j as int));
                assert(longer.last() == (food@.id, food@.name, food@.keywords));
            }
            if self.matches_keywords(&food.keywords, &filter) {
                list.push(FoodChoice { id: food.id.clone(), name: food.name.clone() });
                assert(choice_views(list@) =~= before.push((food@.id, food@.name)));
                assert(first + second.push((food@.id, food@.name)) =~= (first + second).push(
                    (food@.id, food@.name),
                ));
            }
            j = j + 1;
        }
        assert(composite_rows(composite@).take(j as int) =~= composite_rows(composite@));
        list
    }

    /// A food was chosen: the form now holds its identifier.
    pub fn select(&mut self, food_id: &str)
        ensures
            final(self).selected_food_id@ == food_id@,
            final(self).servings == old(self).servings,
            final(self).keywords == old(self).keywords,
            final(self).match_all_keywords == old(self).match_all_keywords,
            final(self).selected_date == old(self).selected_date,
    {
        self.selected_food_id = food_id.to_owned();
    }

    /// The Add button: records the entry that the form describes for the
    /// user who is logged in, and shows the home screen.
    pub fn add_to_log(&self, db: &mut Database, current_state: &mut AppState)
        requires
            old(db).wf(),
        ensures
            final(db).wf(),
            final(db)@ == (DatabaseView {
                food_logs: old(db)@.food_logs.push(self.entry(old(db)@.current_user)),
                ..old(db)@
            }),
            *final(current_state) == AppState::Home,
    {
        let entry = FoodLogEntry {
            date: self.selected_date.clone(),
            food_id: self.selected_food_id.clone(),
            servings: self.servings,
            user_id: db.current_user().to_owned(),
        };
        db.append_log_entry(entry);
        *current_state = AppState::Home;
    }
}

} // verus!
