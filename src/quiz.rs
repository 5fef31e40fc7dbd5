//! The quiz content: six categories of five clues each, checked once when
//! it is loaded and read-only afterwards.
use vstd::prelude::*;
use crate::mapping::{NCATEGORIES, NCLUES, is_clue_slot, slot_category, slot_row};

verus! {

/// A category as it stands in a quiz definition, before it is checked.
pub struct CategorySource {
    pub name: String,
    /// Clue texts, cheapest first; `None` where the definition gives none.
    pub clues: Vec<Option<String>>,
}

/// A quiz definition as read from its document, before it is checked.
pub struct QuizSource {
    pub name: Option<String>,
    pub categories: Vec<CategorySource>,
}

/// Why a quiz definition was refused.
#[derive(Clone, Copy, Debug, PartialEq, Eq, Structural)]
pub enum LoadError {
    /// The definition holds this many categories instead of six.
    CategoryCount(usize),
    /// A category holds `count` clues instead of five.
    ClueCount { category: usize, count: usize },
    /// A clue has no text.
    MissingClueText { category: usize, row: usize },
}

pub struct Clue {
    text: String,
}

pub struct Category {
    name: String,
    clues: Vec<Clue>,
}

/// A checked quiz.
pub struct Quiz {
    name: Option<String>,
    categories: Vec<Category>,
}

/// What a quiz holds: its name, the category names from left to right, and
/// the clue texts of each category from the cheapest to the dearest.
pub struct QuizModel {
    pub name: Option<Seq<char>>,
    pub categories: Seq<Seq<char>>,
    pub clues: Seq<Seq<Seq<char>>>,
}

impl QuizModel {
    pub open spec fn wf(self) -> bool {
        &&& self.categories.len() == 6
        &&& self.clues.len() == 6
        &&& forall|i: int| 0 <= i < 6 ==> (#[trigger] self.clues[i]).len() == 5
        &&& forall|i: int, j: int| 0 <= i < 6 && 0 <= j < 5 ==> (#[trigger] self.clues[i][j]).len() > 0
    }
}

impl View for Quiz {
    type V = QuizModel;

    closed spec fn view(&self) -> QuizModel {
        QuizModel {
            name: match self.name {
                Some(s) => Some(s@),
                None => None,
            },
            categories: self.categories@.map_values(|c: Category| c.name@),
            clues: self.categories@.map_values(|c: Category| c.clues@.map_values(|k: Clue| k.text@)),
        }
    }
}

/// The clue holds a non-empty text.
pub open spec fn clue_present(c: Option<String>) -> bool {
    c is Some && c->0@.len() > 0
}

/// The category holds five clues, each with a text.
pub open spec fn category_valid(c: CategorySource) -> bool {
    &&& c.clues@.len() == 5
    &&& forall|j: int| 0 <= j < 5 ==> clue_present(#[trigger] c.clues@[j])
}

/// The definition holds six valid categories.
pub open spec fn source_valid(s: QuizSource) -> bool {
    &&& s.categories@.len() == 6
    &&& forall|i: int| 0 <= i < 6 ==> category_valid(#[trigger] s.categories@[i])
}

/// The quiz that a valid definition describes, in the same order.
pub open spec fn source_model(s: QuizSource) -> QuizModel {
    QuizModel {
        name: match s.name {
            Some(n) => Some(n@),
            None => None,
        },
        categories: s.categories@.map_values(|c: CategorySource| c.name@),
        clues: s.categories@.map_values(
            |c: CategorySource| c.clues@.map_values(|k: Option<String>| k->0@),
        ),
    }
}

/// The result of loading: the quiz of a valid definition, else its first
/// defect, categories taken left to right and clues within a category from
/// the cheapest.
pub open spec fn load_result(s: QuizSource, r: Result<Quiz, LoadError>) -> bool {
    let cats = s.categories@;
    match r {
        Ok(q) => source_valid(s) && q@ == source_model(s),
        Err(LoadError::CategoryCount(n)) => cats.len() != 6 && n == cats.len(),
        Err(LoadError::ClueCount { category, count }) => {
            &&& cats.len() == 6
            &&& category < 6
            &&& count == cats[category as int].clues@.len()
            &&& count != 5
            &&& forall|k: int| 0 <= k < category ==> category_valid(#[trigger] cats[k])
        },
        Err(LoadError::MissingClueText { category, row }) => {
            &&& cats.len() == 6
            &&& category < 6
            &&& row < 5
            &&& cats[category as int].clues@.len() == 5
            &&& !clue_present(cats[category as int].clues@[row as int])
            &&& forall|k: int| 0 <= k < category ==> category_valid(#[trigger] cats[k])
            &&& forall|l: int| 0 <= l < row ==> clue_present(#[trigger] cats[category as int].clues@[l])
        },
    }
}

/// The dollar value of the clues in row `row`, the cheapest row being 0.
pub fn clue_value(row: usize) -> (r: u32)
    requires
        row < 5,
    ensures
        r == 200 * (row + 1),
{
    200 * (row as u32 + 1)
}

impl Quiz {
    /// Checks a quiz definition and builds the quiz it describes.
    pub fn load(source: &QuizSource) -> (r: Result<Quiz, LoadError>)
        ensures
            load_result(*source, r),
            source_valid(*source) <==> r is Ok,
            r is Ok ==> r->Ok_0@.wf(),
    {
        let n = source.categories.len();
        if n != NCATEGORIES {
            return Err(LoadError::CategoryCount(n));
        }
        let mut categories: Vec<Category> = Vec::new();
        let mut i: usize = 0;
        while i < NCATEGORIES
            invariant
                i <= 6,
                source.categories@.len() == 6,
                categories@.len() == i,
                forall|k: int| 0 <= k < i ==> category_valid(#[trigger] source.categories@[k]),
                forall|k: int| 0 <= k < i ==> (#[trigger] categories@[k]).name@ == source.categories@[k].name@,
                forall|k: int| 0 <= k < i ==> (#[trigger] categories@[k]).clues@.len() == 5,
                forall|k: int, l: int| 0 <= k < i && 0 <= l < 5
                    ==> (#[trigger] categories@[k].clues@[l]).text@ == source.categories@[k].clues@[l]->0@,
            decreases 6 - i,
        {
            let c = &source.categories[i];
            let m = c.clues.len();
            if m != NCLUES {
                return Err(LoadError::ClueCount { category: i, count: m });
            }
            let mut clues: Vec<Clue> = Vec::new();
            let mut j: usize = 0;
            while j < NCLUES
                invariant
                    i < 6,
                    j <= 5,
                    source.categories@.len() == 6,
                    *c == source.categories@[i as int],
                    forall|k: int| 0 <= k < i ==> category_valid(#[trigger] source.categories@[k]),
                    c.clues@.len() == 5,
                    clues@.len() == j,
                    forall|l: int| 0 <= l < j ==> clue_present(#[trigger] c.clues@[l]),
                    forall|l: int| 0 <= l < j ==> (#[trigger] clues@[l]).text@ == c.clues@[l]->0@,
                decreases 5 - j,
            {
                match &c.clues[j] {
                    Some(t) => {
                        if t.as_str().is_empty() {
                            return Err(LoadError::MissingClueText { category: i, row: j });
                        }
                        clues.push(Clue { text: t.clone() });
                    },
                    None => {
                        return Err(LoadError::MissingClueText { category: i, row: j });
                    },
                }
                j += 1;
            }
            categories.push(Category { name: c.name.clone(), clues });
            i += 1;
        }
        let name = match &source.name {
            Some(t) => Some(t.clone()),
            None => None,
        };
        let q = Quiz { name, categories };
        assert(q@.categories =~= source_model(*source).categories);
        assert forall|k: int| 0 <= k < 6 implies #[trigger] q@.clues[k] =~= source_model(*source).clues[k] by {
            assert(q.categories@[k].clues@.len() == 5);
        }
        assert(q@.clues =~= source_model(*source).clues);
        Ok(q)
    }

    /// The quiz's name, or `Quiz!` where it has none.
    pub fn title(&self) -> (r: String)
        ensures
            self@.name is Some ==> r@ == self@.name->0,
            self@.name is None ==> r@ == "Quiz!"@,
    {
        match &self.name {
            Some(t) => t.clone(),
            None => "Quiz!".to_owned(),
        }
    }

    /// The name of category `i`, counted from the left.
    pub fn category_name(&self, i: usize) -> (r: &str)
        requires
            self@.wf(),
            i < 6,
        ensures
            r@ == self@.categories[i as int],
    {
        self.categories[i].name.as_str()
    }

    /// The text of the clue behind click slot `cell`.
    pub fn get_clue(&self, cell: usize) -> (r: &str)
        requires
            self@.wf(),
            is_clue_slot(cell as int),
        ensures
            r@ == self@.clues[slot_category(cell as int)][slot_row(cell as int)],
    {
        let c = &self.categories[cell / 6];
        proof {
            assert(self@.clues[cell as int / 6].len() == 5);
        }
        c.clues[cell % 6 - 1].text.as_str()
    }
}

} // verus!
