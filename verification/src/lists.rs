//! Lists: named pools of values of one type, from which a variable can
//! take its value.

use vstd::prelude::*;
use crate::global::{
    data_kind, read_outcome, same_text, tag_kind, Content, DataKind, Decimal, EngineError,
    ReadAttempt, TypeWrapper,
};

verus! {

/// Contains a vector field for each of the four data types allowed in
/// lists; `typechoice` says which of them is in use.
#[derive(Debug, PartialEq)]
pub struct List {
    pub words: Vec<String>,
    pub runes: Vec<char>,
    pub intsigned: Vec<i64>,
    pub decimals: Vec<Decimal>,
    pub typechoice: String,
}

/// What a `List` holds, as mathematical values.
pub struct ListModel {
    pub words: Seq<Seq<char>>,
    pub runes: Seq<char>,
    pub intsigned: Seq<i64>,
    pub decimals: Seq<Decimal>,
    pub typechoice: Seq<char>,
}

impl ListModel {
    /// The values to choose from: those of the collection that
    /// `typechoice` names, each with its type.  A list whose `typechoice`
    /// names no type offers none.
    pub open spec fn candidates(self) -> Seq<Content> {
        match tag_kind(self.typechoice) {
            Some(DataKind::Strings) => self.words.map_values(
                |word: Seq<char>| Content::Alphanum(word),
            ),
            Some(DataKind::Characters) => self.runes.map_values(
                |rune: char| Content::letter(rune),
            ),
            Some(DataKind::Ints) => self.intsigned.map_values(
                |number: i64| Content::Integer(number),
            ),
            Some(DataKind::Floats) => self.decimals.map_values(
                |number: Decimal| Content::Floating(number),
            ),
            None => Seq::empty(),
        }
    }

    /// `typechoice` names a type, and no collection but that type's holds
    /// anything.
    pub open spec fn well_formed(self) -> bool {
        match tag_kind(self.typechoice) {
            Some(kind) => {
                &&& kind != DataKind::Strings ==> self.words.len() == 0
                &&& kind != DataKind::Characters ==> self.runes.len() == 0
                &&& kind != DataKind::Ints ==> self.intsigned.len() == 0
                &&& kind != DataKind::Floats ==> self.decimals.len() == 0
            },
            None => false,
        }
    }
}

impl View for List {
    type V = ListModel;

    open spec fn view(&self) -> ListModel {
        ListModel {
            words: self.words@.map_values(|word: String| word@),
            runes: self.runes@,
            intsigned: self.intsigned@,
            decimals: self.decimals@,
            typechoice: self.typechoice@,
        }
    }
}

impl List {
    /// Initializes a new list: no values, and strings as its type.
    pub fn new() -> (list: List)
        ensures
            list@ == (ListModel {
                words: Seq::empty(),
                runes: Seq::empty(),
                intsigned: Seq::empty(),
                decimals: Seq::empty(),
                typechoice: "Strings"@,
            }),
            list@.well_formed(),
    {
        let list = List {
            words: Vec::new(),
            runes: Vec::new(),
            intsigned: Vec::new(),
            decimals: Vec::new(),
            typechoice: String::from_str("Strings"),
        };
        assert(list@.words =~= Seq::empty());
        list
    }
}

impl Default for List {
    fn default() -> (list: List)
        ensures
            list@ == (ListModel {
                words: Seq::empty(),
                runes: Seq::empty(),
                intsigned: Seq::empty(),
                decimals: Seq::empty(),
                typechoice: "Strings"@,
            }),
    {
        List::new()
    }
}

/// The values entered for a new list, all of one type.
#[derive(Debug, PartialEq)]
pub enum ListValues {
    Words(Vec<String>),
    Runes(Vec<char>),
    Ints(Vec<i64>),
    Decimals(Vec<Decimal>),
}

impl ListValues {
    /// The type of the values.
    pub open spec fn kind(self) -> DataKind {
        match self {
            ListValues::Words(_) => DataKind::Strings,
            ListValues::Runes(_) => DataKind::Characters,
            ListValues::Ints(_) => DataKind::Ints,
            ListValues::Decimals(_) => DataKind::Floats,
        }
    }

    /// The values, each with its type.
    pub open spec fn contents(self) -> Seq<Content> {
        match self {
            ListValues::Words(words) => Seq::new(
                words@.len(),
                |i: int| Content::Alphanum(words@[i]@),
            ),
            ListValues::Runes(runes) => Seq::new(runes@.len(), |i: int| Content::letter(runes@[i])),
            ListValues::Ints(numbers) => Seq::new(
                numbers@.len(),
                |i: int| Content::Integer(numbers@[i]),
            ),
            ListValues::Decimals(numbers) => Seq::new(
                numbers@.len(),
                |i: int| Content::Floating(numbers@[i]),
            ),
        }
    }

    /// The list that holds these values under the tag `typechoice`.
    pub open spec fn as_list(self, typechoice: Seq<char>) -> ListModel {
        ListModel {
            words: match self {
                ListValues::Words(words) => words@.map_values(|word: String| word@),
                _ => Seq::empty(),
            },
            runes: match self {
                ListValues::Runes(runes) => runes@,
                _ => Seq::empty(),
            },
            intsigned: match self {
                ListValues::Ints(numbers) => numbers@,
                _ => Seq::empty(),
            },
            decimals: match self {
                ListValues::Decimals(numbers) => numbers@,
                _ => Seq::empty(),
            },
            typechoice,
        }
    }
}

/// A list that holds the values entered for it under the tag of their type
/// offers these values and no others, in their order.
pub proof fn lemma_list_offers_its_values(typechoice: Seq<char>, values: ListValues)
    requires
        tag_kind(typechoice) == Some(values.kind()),
    ensures
        values.as_list(typechoice).well_formed(),
        values.as_list(typechoice).candidates() == values.contents(),
{
    let list = values.as_list(typechoice);
    assert(list.candidates() =~= values.contents());
}

/// Create a new list of the type that `typech` names from the values
/// entered for it.
///
/// Fails with `Malformed` where `typech` is none of the four tags, or the
/// values are of another type than the one it names.
pub fn list_create(typech: &str, values: ListValues) -> (made: Result<List, EngineError>)
    ensures
        made is Ok <==> tag_kind(typech@) == Some(values.kind()),
        made matches Err(error) ==> error == EngineError::Malformed,
        made matches Ok(list) ==> list@ == values.as_list(typech@) && list@.well_formed(),
{
    let kind = data_kind(typech);
    let mut newlist = List::new();
    newlist.typechoice = String::from_str(typech);
    match (kind, values) {
        (Some(DataKind::Strings), ListValues::Words(uselist)) => {
            newlist.words = uselist;
        },
        (Some(DataKind::Characters), ListValues::Runes(uselist)) => {
            newlist.runes = uselist;
        },
        (Some(DataKind::Ints), ListValues::Ints(uselist)) => {
            newlist.intsigned = uselist;
        },
        (Some(DataKind::Floats), ListValues::Decimals(uselist)) => {
            newlist.decimals = uselist;
        },
        _ => {
            return Err(EngineError::Malformed);
        },
    }
    assert(newlist@.words =~= values.as_list(typech@).words);
    Ok(newlist)
}

/// Check that a list contains the type of data that `typech` names.
pub fn list_check_typematch(uselist: &List, typech: &str) -> (matches: bool)
    ensures
        matches == (uselist@.typechoice == typech@),
{
    same_text(uselist.typechoice.as_str(), typech)
}

/// How the reading of a list goes on after an attempt.
#[derive(Debug, PartialEq)]
pub enum ListStep {
    /// The list is read: the file's name and the list.
    Found(String, List),
    /// The file holds a list of another type: another file is to be chosen.
    ChooseAgain,
    /// No list can be had.
    Failed(EngineError),
}

/// Decides what follows an attempt to read a list of the type that
/// `typech` names.  What was read is the name of the file and the list
/// that the file holds.
///
/// A list of that type is the result.  A list of another type is never
/// handed on: another file is to be chosen.  An empty directory and a file
/// that cannot be read end the reading with `NotFound`, a file that holds
/// no list with `Malformed`.
pub fn list_read(typech: &str, attempt: ReadAttempt<(String, List)>) -> (step: ListStep)
    ensures
        step == match attempt {
            ReadAttempt::EmptyDirectory => ListStep::Failed(EngineError::NotFound),
            ReadAttempt::Unreadable => ListStep::Failed(EngineError::NotFound),
            ReadAttempt::Unparsable => ListStep::Failed(EngineError::Malformed),
            ReadAttempt::Parsed((fname, list)) => if list@.typechoice == typech@ {
                ListStep::Found(fname, list)
            } else {
                ListStep::ChooseAgain
            },
        },
        step matches ListStep::Found(_, list) ==> list@.typechoice == typech@,
{
    match read_outcome(attempt) {
        Err(error) => ListStep::Failed(error),
        Ok((fname, list)) => {
            if list_check_typematch(&list, typech) {
                ListStep::Found(fname, list)
            } else {
                ListStep::ChooseAgain
            }
        },
    }
}

/// `lib_utils::vec::vec_random_choice` returns nothing for an empty vector;
/// otherwise it draws an index below the vector's length and returns the
/// element that stands there together with that index.
pub assume_specification<T>[ lib_utils::vec::vec_random_choice::<T> ](list: &Vec<T>) -> (choice:
    Option<(&T, usize)>)
    ensures
        choice is None <==> list@.len() == 0,
        choice matches Some((item, index)) ==> index < list@.len() && *item == list@[index as int],
;

/// The value at place `index` of the collection that the list's
/// `typechoice` names, with its type.  There is none where `typechoice`
/// names no type or the collection ends before that place.
pub fn list_item(list: &List, index: usize) -> (item: Option<TypeWrapper>)
    ensures
        item is Some <==> index < list@.candidates().len(),
        item matches Some(value) ==> value@ == list@.candidates()[index as int],
{
    match data_kind(list.typechoice.as_str()) {
        Some(DataKind::Strings) => {
            if index < list.words.len() {
                Some(TypeWrapper::Alphanum(list.words[index].clone()))
            } else {
                None
            }
        },
        Some(DataKind::Characters) => {
            if index < list.runes.len() {
                Some(TypeWrapper::Letter(list.runes[index]))
            } else {
                None
            }
        },
        Some(DataKind::Ints) => {
            if index < list.intsigned.len() {
                Some(TypeWrapper::Integer(list.intsigned[index]))
            } else {
                None
            }
        },
        Some(DataKind::Floats) => {
            if index < list.decimals.len() {
                Some(TypeWrapper::Floating(list.decimals[index]))
            } else {
                None
            }
        },
        None => None,
    }
}

/// Picks one of the list's values at random, from the collection that its
/// `typechoice` names.
///
/// Fails with `EmptyCollection` where that collection holds nothing, and
/// with `Malformed` where `typechoice` names no type.
pub fn list_sample(list: &List) -> (picked: Result<TypeWrapper, EngineError>)
    ensures
        picked is Ok <==> list@.candidates().len() > 0,
        picked matches Ok(value) ==> list@.candidates().contains(value@),
        tag_kind(list@.typechoice) is Some && list@.candidates().len() == 0 ==> picked == Err::<
            TypeWrapper,
            EngineError,
        >(EngineError::EmptyCollection),
        picked matches Err(error) ==> error == if tag_kind(list@.typechoice) is None {
            EngineError::Malformed
        } else {
            EngineError::EmptyCollection
        },
{
    let drawn = match data_kind(list.typechoice.as_str()) {
        Some(DataKind::Strings) => match lib_utils::vec::vec_random_choice(&list.words) {
            Some((_, index)) => Some(index),
            None => None,
        },
        Some(DataKind::Characters) => match lib_utils::vec::vec_random_choice(&list.runes) {
            Some((_, index)) => Some(index),
            None => None,
        },
        Some(DataKind::Ints) => match lib_utils::vec::vec_random_choice(&list.intsigned) {
            Some((_, index)) => Some(index),
            None => None,
        },
        Some(DataKind::Floats) => match lib_utils::vec::vec_random_choice(&list.decimals) {
            Some((_, index)) => Some(index),
            None => None,
        },
        None => {
            return Err(EngineError::Malformed);
        },
    };
    match drawn {
        Some(index) => match list_item(list, index) {
            Some(value) => Ok(value),
            None => Err(EngineError::EmptyCollection),
        },
        None => Err(EngineError::EmptyCollection),
    }
}

} // verus!
