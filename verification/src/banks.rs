//! Banks: titled collections of questions.

use vstd::prelude::*;
use crate::global::{read_outcome, same_text, EngineError, ReadAttempt};
use crate::questions::{qst_recalc, Question, QuestionModel};
use crate::variable::ValueSupply;

verus! {

/// The outermost of the three structs that a bank is built around:
/// `question_vec` holds the bank's questions in their order.
#[derive(Debug, PartialEq)]
pub struct Bank {
    /// Also used for the file name.
    pub bank_title: String,
    /// Empty if no textbook is being used.
    pub associated_textbook: String,
    pub question_vec: Vec<Question>,
}

/// What a `Bank` holds, as mathematical values.
pub struct BankModel {
    pub bank_title: Seq<char>,
    pub associated_textbook: Seq<char>,
    pub question_vec: Seq<QuestionModel>,
}

/// The questions of `questions` as mathematical values.
pub open spec fn question_models(questions: Seq<Question>) -> Seq<QuestionModel> {
    questions.map_values(|quest: Question| quest@)
}

impl BankModel {
    /// What stands in for a bank while none is loaded.
    pub open spec fn initial() -> BankModel {
        BankModel {
            bank_title: "No Bank Loaded"@,
            associated_textbook: "Untitled Textbook"@,
            question_vec: Seq::empty(),
        }
    }

    /// What was supplied for the variables of the question at `at`:
    /// nothing, where `supplies` does not reach that far.
    pub open spec fn supplies_at(supplies: Seq<Vec<ValueSupply>>, at: int) -> Seq<ValueSupply> {
        if 0 <= at < supplies.len() {
            supplies[at]@
        } else {
            Seq::empty()
        }
    }

    /// Every variable of the question at `at` can be recalculated.
    pub open spec fn can_recalc_at(self, supplies: Seq<Vec<ValueSupply>>, at: int) -> bool {
        self.question_vec[at].can_recalc(Self::supplies_at(supplies, at))
    }

    /// Every variable of every question can be recalculated.
    pub open spec fn can_recalc(self, supplies: Seq<Vec<ValueSupply>>) -> bool {
        forall|at: int|
            0 <= at < self.question_vec.len() ==> #[trigger] self.can_recalc_at(supplies, at)
    }

    /// `error` is why the first variable of the first question that
    /// cannot be recalculated cannot.
    pub open spec fn recalc_fails_with(
        self,
        supplies: Seq<Vec<ValueSupply>>,
        error: EngineError,
    ) -> bool {
        exists|at: int|
            {
                &&& 0 <= at < self.question_vec.len()
                &&& !#[trigger] self.can_recalc_at(supplies, at)
                &&& self.question_vec[at].recalc_fails_with(Self::supplies_at(supplies, at), error)
                &&& forall|before: int|
                    0 <= before < at ==> #[trigger] self.can_recalc_at(supplies, before)
            }
    }

    /// `after` is this bank with every question recalculated from what
    /// was supplied for it.  Nothing else differs.
    pub open spec fn recalculated(self, supplies: Seq<Vec<ValueSupply>>, after: BankModel) -> bool {
        &&& after.bank_title == self.bank_title
        &&& after.associated_textbook == self.associated_textbook
        &&& after.question_vec.len() == self.question_vec.len()
        &&& forall|at: int|
            0 <= at < self.question_vec.len() ==> self.question_vec[at].recalculated(
                Self::supplies_at(supplies, at),
                #[trigger] after.question_vec[at],
            )
    }
}

impl View for Bank {
    type V = BankModel;

    open spec fn view(&self) -> BankModel {
        BankModel {
            bank_title: self.bank_title@,
            associated_textbook: self.associated_textbook@,
            question_vec: question_models(self.question_vec@),
        }
    }
}

impl Bank {
    /// Initialize a new question Bank.
    pub fn new() -> (bank: Bank)
        ensures
            bank@ == BankModel::initial(),
    {
        let bank = Bank {
            bank_title: String::from_str("No Bank Loaded"),
            associated_textbook: String::from_str("Untitled Textbook"),
            question_vec: Vec::new(),
        };
        assert(bank@.question_vec =~= Seq::empty());
        bank
    }
}

impl Default for Bank {
    fn default() -> (bank: Bank)
        ensures
            bank@ == BankModel::initial(),
    {
        Bank::new()
    }
}

impl Clone for Bank {
    /// Clone a question Bank.
    fn clone(&self) -> (copy: Bank)
        ensures
            copy@ == self@,
    {
        let mut question_vec: Vec<Question> = Vec::new();
        let mut i: usize = 0;
        while i < self.question_vec.len()
            invariant
                i <= self.question_vec.len(),
                question_models(question_vec@) == question_models(self.question_vec@).take(
                    i as int,
                ),
            decreases self.question_vec.len() - i,
        {
            let ghost before = question_vec@;
            let quest = self.question_vec[i].clone();
            question_vec.push(quest);
            assert(question_models(question_vec@) =~= question_models(before).push(quest@));
            assert(question_models(self.question_vec@).take(i + 1) =~= question_models(
                self.question_vec@,
            ).take(i as int).push(self.question_vec@[i as int]@));
            i = i + 1;
        }
        assert(question_models(self.question_vec@).take(self.question_vec.len() as int)
            =~= question_models(self.question_vec@));
        Bank {
            bank_title: self.bank_title.clone(),
            associated_textbook: self.associated_textbook.clone(),
            question_vec,
        }
    }
}

/// Checks if a bank is loaded: `bank` is one, unless its title is that of
/// the stand-in for no bank.
pub fn bnk_loaded(bank: &Bank) -> (inmem: bool)
    ensures
        inmem == (bank@.bank_title != "No Bank Loaded"@),
{
    !same_text(bank.bank_title.as_str(), "No Bank Loaded")
}

/// Creates a brand new question bank with the title and textbook entered
/// and no questions.
pub fn bnk_create(bank_title: String, associated_textbook: String) -> (newbank: Bank)
    ensures
        newbank@ == (BankModel {
            bank_title: bank_title@,
            associated_textbook: associated_textbook@,
            question_vec: Seq::empty(),
        }),
{
    let mut newbank = Bank::new();
    newbank.bank_title = bank_title;
    newbank.associated_textbook = associated_textbook;
    newbank
}

/// Takes in what came of reading a bank from a file: a bank that was read
/// becomes the current bank.  After a failure the current bank stays as it
/// is, and the failure is the result: `NotFound` after an empty directory
/// or an unreadable file, `Malformed` after a file that holds no bank.
pub fn bnk_read(current: &mut Bank, attempt: ReadAttempt<Bank>) -> (outcome: Result<
    (),
    EngineError,
>)
    ensures
        match attempt {
            ReadAttempt::Parsed(usebank) => outcome is Ok && *final(current) == usebank,
            ReadAttempt::Unparsable => outcome == Err::<(), EngineError>(EngineError::Malformed)
                && *final(current) == *old(current),
            _ => outcome == Err::<(), EngineError>(EngineError::NotFound) && *final(current)
                == *old(current),
        },
{
    match read_outcome(attempt) {
        Ok(usebank) => {
            *current = usebank;
            Ok(())
        },
        Err(error) => Err(error),
    }
}

/// Recalculates the variables in the questions of a bank: the value of
/// every variable of every question is set anew, that of the variable at
/// place `v` of the question at place `q` from what `supplies` holds at
/// place `v` of its place `q`.
///
/// All of them are recalculated or none is: where a variable cannot be
/// recalculated, the bank stays as it is, and the failure of the first
/// such variable is the result.
pub fn bnk_recalc(bank: &mut Bank, supplies: &Vec<Vec<ValueSupply>>) -> (outcome: Result<
    (),
    EngineError,
>)
    ensures
        outcome is Ok <==> old(bank)@.can_recalc(supplies@),
        outcome is Ok ==> old(bank)@.recalculated(supplies@, final(bank)@),
        outcome matches Err(error) ==> old(bank)@.recalc_fails_with(supplies@, error),
        outcome is Err ==> final(bank)@ == old(bank)@,
{
    let nothing: Vec<ValueSupply> = Vec::new();
    let mut fresh: Vec<Question> = Vec::new();
    let mut at: usize = 0;
    while at < bank.question_vec.len()
        invariant
            at <= bank.question_vec.len(),
            bank@ == old(bank)@,
            nothing@.len() == 0,
            question_models(fresh@).len() == at,
            forall|k: int| 0 <= k < at ==> #[trigger] bank@.can_recalc_at(supplies@, k),
            forall|k: int|
                0 <= k < at ==> bank@.question_vec[k].recalculated(
                    BankModel::supplies_at(supplies@, k),
                    #[trigger] question_models(fresh@)[k],
                ),
        decreases bank.question_vec.len() - at,
    {
        let mut quest = bank.question_vec[at].clone();
        assert(quest@ == bank@.question_vec[at as int]);
        let given = if at < supplies.len() {
            &supplies[at]
        } else {
            &nothing
        };
        assert(given@ =~= BankModel::supplies_at(supplies@, at as int));
        match qst_recalc(&mut quest, given) {
            Ok(()) => {
                let ghost before = fresh@;
                fresh.push(quest);
                assert(question_models(fresh@) =~= question_models(before).push(quest@));
                assert(bank@.can_recalc_at(supplies@, at as int));
            },
            Err(error) => {
                assert(!bank@.can_recalc_at(supplies@, at as int));
                return Err(error);
            },
        }
        at = at + 1;
    }
    let ghost recalculated = question_models(fresh@);
    bank.question_vec = fresh;
    assert(bank@.question_vec == recalculated);
    Ok(())
}

} // verus!
