//! Questions: text that refers to variables, and the variables that it
//! refers to.

use vstd::prelude::*;
use crate::banks::Bank;
use crate::flags::{flagged, flagged_names, name_views, referenced_names, well_flagged};
use crate::global::{same_text, EngineError};
use crate::variable::{
    lemma_set_anew_matches_type, variable_file, vrbl_file_of_name, vrbl_readpath, vrbl_recalc,
    ValueSupply, Variable, VariableModel,
};

verus! {

/// The text of a question before its own text is written.
pub const STARTER_TEXT: &'static str =
    "Please enter the text of your question.  Use real values. You will replace those values with variables later.  Be sure to delete these instructions before entering your question text.";

/// The second layer of the three structs that a bank is built around.
/// `var_vec` holds the variables that `qtext` refers to.
#[derive(Debug, PartialEq)]
pub struct Question {
    pub qtext: String,
    pub var_dirpath: String,
    pub var_vec: Vec<Variable>,
    pub answer: String,
    pub objectives: Vec<String>,
    pub prereqs: Vec<String>,
}

/// What a `Question` holds, as mathematical values.
pub struct QuestionModel {
    pub qtext: Seq<char>,
    pub var_dirpath: Seq<char>,
    pub var_vec: Seq<VariableModel>,
    pub answer: Seq<char>,
    pub objectives: Seq<Seq<char>>,
    pub prereqs: Seq<Seq<char>>,
}

/// The variables of `vars` as mathematical values.
pub open spec fn variable_models(vars: Seq<Variable>) -> Seq<VariableModel> {
    vars.map_values(|var: Variable| var@)
}

impl QuestionModel {
    /// A question as it is before its text was written.
    pub open spec fn initial() -> QuestionModel {
        QuestionModel {
            qtext: STARTER_TEXT@,
            var_dirpath: crate::VARIABLE_DIR@,
            var_vec: Seq::empty(),
            answer: "Answer"@,
            objectives: Seq::empty(),
            prereqs: Seq::empty(),
        }
    }

    /// What was supplied for the variable at `at`, if anything was.
    pub open spec fn supply_at(supplies: Seq<ValueSupply>, at: int) -> Option<ValueSupply> {
        if 0 <= at < supplies.len() {
            Some(supplies[at])
        } else {
            None
        }
    }

    /// Why the variable at `at` cannot be recalculated, if it cannot.
    pub open spec fn recalc_failure_at(self, supplies: Seq<ValueSupply>, at: int) -> Option<
        EngineError,
    > {
        self.var_vec[at].recalc_failure(Self::supply_at(supplies, at))
    }

    /// Every variable of the question can be recalculated.
    pub open spec fn can_recalc(self, supplies: Seq<ValueSupply>) -> bool {
        forall|at: int|
            0 <= at < self.var_vec.len() ==> (#[trigger] self.recalc_failure_at(supplies, at))
                is None
    }

    /// `error` is why the first variable that cannot be recalculated
    /// cannot.
    pub open spec fn recalc_fails_with(
        self,
        supplies: Seq<ValueSupply>,
        error: EngineError,
    ) -> bool {
        exists|at: int|
            {
                &&& 0 <= at < self.var_vec.len()
                &&& #[trigger] self.recalc_failure_at(supplies, at) == Some(error)
                &&& forall|before: int|
                    0 <= before < at ==> (#[trigger] self.recalc_failure_at(supplies, before))
                        is None
            }
    }

    /// `after` is this question with the value of each variable set anew
    /// from what was supplied for it.  Nothing else differs.
    pub open spec fn recalculated(self, supplies: Seq<ValueSupply>, after: QuestionModel) -> bool {
        &&& after == (QuestionModel { var_vec: after.var_vec, ..self })
        &&& after.var_vec.len() == self.var_vec.len()
        &&& self.var_vec.len() <= supplies.len()
        &&& forall|at: int|
            0 <= at < self.var_vec.len() ==> self.var_vec[at].set_anew(
                supplies[at].read_optn,
                supplies[at].drawn,
                #[trigger] after.var_vec[at],
            )
    }
}

impl View for Question {
    type V = QuestionModel;

    open spec fn view(&self) -> QuestionModel {
        QuestionModel {
            qtext: self.qtext@,
            var_dirpath: self.var_dirpath@,
            var_vec: variable_models(self.var_vec@),
            answer: self.answer@,
            objectives: name_views(self.objectives@),
            prereqs: name_views(self.prereqs@),
        }
    }
}

/// A copy of `texts`.
pub fn clone_texts(texts: &Vec<String>) -> (copy: Vec<String>)
    ensures
        name_views(copy@) == name_views(texts@),
{
    let mut copy: Vec<String> = Vec::new();
    let mut i: usize = 0;
    while i < texts.len()
        invariant
            i <= texts.len(),
            name_views(copy@) == name_views(texts@).take(i as int),
        decreases texts.len() - i,
    {
        let ghost before = copy@;
        let text = texts[i].clone();
        copy.push(text);
        assert(name_views(copy@) =~= name_views(before).push(text@));
        assert(name_views(texts@).take(i + 1) =~= name_views(texts@).take(i as int).push(
            texts@[i as int]@,
        ));
        i = i + 1;
    }
    assert(name_views(texts@).take(texts.len() as int) =~= name_views(texts@));
    copy
}

/// A copy of `vars`.
pub fn clone_variables(vars: &Vec<Variable>) -> (copy: Vec<Variable>)
    ensures
        variable_models(copy@) == variable_models(vars@),
{
    let mut copy: Vec<Variable> = Vec::new();
    let mut i: usize = 0;
    while i < vars.len()
        invariant
            i <= vars.len(),
            variable_models(copy@) == variable_models(vars@).take(i as int),
        decreases vars.len() - i,
    {
        let ghost before = copy@;
        let var = vars[i].clone();
        copy.push(var);
        assert(variable_models(copy@) =~= variable_models(before).push(var@));
        assert(variable_models(vars@).take(i + 1) =~= variable_models(vars@).take(i as int).push(
            vars@[i as int]@,
        ));
        i = i + 1;
    }
    assert(variable_models(vars@).take(vars.len() as int) =~= variable_models(vars@));
    copy
}

impl Clone for Question {
    fn clone(&self) -> (copy: Question)
        ensures
            copy@ == self@,
    {
        Question {
            qtext: self.qtext.clone(),
            var_dirpath: self.var_dirpath.clone(),
            var_vec: clone_variables(&self.var_vec),
            answer: self.answer.clone(),
            objectives: clone_texts(&self.objectives),
            prereqs: clone_texts(&self.prereqs),
        }
    }
}

impl Question {
    /// Initialize a new Question.
    pub fn new() -> (quest: Question)
        ensures
            quest@ == QuestionModel::initial(),
    {
        let quest = Question {
            qtext: String::from_str(STARTER_TEXT),
            var_dirpath: String::from_str(crate::VARIABLE_DIR),
            var_vec: Vec::new(),
            answer: String::from_str("Answer"),
            objectives: Vec::new(),
            prereqs: Vec::new(),
        };
        assert(quest@.var_vec =~= Seq::empty());
        assert(quest@.objectives =~= Seq::empty());
        assert(quest@.prereqs =~= Seq::empty());
        quest
    }
}

/// Why the variables of a question could not all be put in place: the
/// failure, and the name of the variable that it befell.  Where the text
/// itself is at fault there is no such name, and `name` is empty.
#[derive(Debug, PartialEq)]
pub struct FillError {
    pub kind: EngineError,
    pub name: String,
}

/// What the loading of the variables that `qtext` refers to leaves in a
/// question, and how it ends.
///
/// `loaded` holds, for each name that the text refers to, in ascending
/// order, what came of loading the variable of that name.  `vars` are the
/// variables loaded before the first failure, in that order, and
/// `outcome` names that failure: the text, if its flags are at fault; else
/// the first name whose variable was not loaded, with the reason given, or
/// `NotFound` where `loaded` ends before that name.
pub open spec fn filled_from(
    qtext: Seq<char>,
    loaded: Seq<Result<Variable, EngineError>>,
    vars: Seq<VariableModel>,
    outcome: Result<(), FillError>,
) -> bool {
    if !well_flagged(qtext, crate::FLAG) {
        &&& vars.len() == 0
        &&& outcome matches Err(failure)
        &&& failure.kind == EngineError::InvalidReference
        &&& failure.name@.len() == 0
    } else {
        let names = referenced_names(qtext);
        &&& vars.len() <= names.len()
        &&& forall|i: int|
            0 <= i < vars.len() ==> i < loaded.len() && (#[trigger] loaded[i] matches Ok(var)
                && vars[i] == var@)
        &&& outcome is Ok <==> vars.len() == names.len()
        &&& outcome matches Err(failure) ==> {
            &&& failure.name@ == names[vars.len() as int]
            &&& failure.kind == if vars.len() < loaded.len() {
                match loaded[vars.len() as int] {
                    Err(reason) => reason,
                    Ok(_) => EngineError::NotFound,
                }
            } else {
                EngineError::NotFound
            }
            &&& vars.len() < loaded.len() ==> loaded[vars.len() as int] is Err
        }
    }
}

/// Parses the text of a question looking for flags that mark variables,
/// and puts the variables that were loaded for the flagged names into
/// `quest.var_vec`, in place of what was there.
///
/// `loaded` holds, for each name that `flagged_names` finds in the text,
/// in that order, what came of loading the variable of that name from the
/// question's directory.  At the first name whose variable was not loaded
/// the filling stops and reports that name; the variables before it stay
/// in `var_vec`.  Where the flags of the text are at fault, `var_vec` is
/// left empty and `InvalidReference` is reported.
pub fn qst_fill_varvec_parsetext(
    quest: &mut Question,
    loaded: &Vec<Result<Variable, EngineError>>,
) -> (outcome: Result<(), FillError>)
    ensures
        filled_from(old(quest)@.qtext, loaded@, final(quest)@.var_vec, outcome),
        final(quest)@ == (QuestionModel { var_vec: final(quest)@.var_vec, ..old(quest)@ }),
{
    quest.var_vec.clear();
    assert(quest@.var_vec =~= Seq::empty());
    let usevec = match flagged_names(&quest.qtext) {
        Ok(names) => names,
        Err(error) => {
            return Err(FillError { kind: error, name: String::new() });
        },
    };
    let mut i: usize = 0;
    while i < usevec.len()
        invariant
            i <= usevec.len(),
            well_flagged(quest@.qtext, crate::FLAG),
            name_views(usevec@) == referenced_names(quest@.qtext),
            quest@ == (QuestionModel { var_vec: quest@.var_vec, ..old(quest)@ }),
            quest@.var_vec.len() == i,
            forall|k: int|
                0 <= k < i ==> k < loaded@.len() && (#[trigger] loaded@[k] matches Ok(var)
                    && quest@.var_vec[k] == var@),
        decreases usevec.len() - i,
    {
        assert(name_views(usevec@)[i as int] == usevec@[i as int]@);
        if i >= loaded.len() {
            return Err(FillError { kind: EngineError::NotFound, name: usevec[i].clone() });
        }
        match &loaded[i] {
            Ok(newvar) => {
                let ghost before = quest@.var_vec;
                quest.var_vec.push(newvar.clone());
                assert(quest@.var_vec =~= before.push(newvar@));
            },
            Err(reason) => {
                return Err(FillError { kind: *reason, name: usevec[i].clone() });
            },
        }
        i = i + 1;
    }
    Ok(())
}

/// The path of the file that holds the variable `name` of a question: the
/// file of that name in the question's own directory.
pub fn qst_variable_path(quest: &Question, name: &str) -> (path: String)
    ensures
        path@ == quest@.var_dirpath + "/"@ + name@ + ".vrbl"@,
        path@ == quest@.var_dirpath + "/"@ + variable_file(name@),
{
    let fname = vrbl_file_of_name(name);
    let path = vrbl_readpath(quest.var_dirpath.as_str(), fname.as_str());
    assert(quest@.var_dirpath + "/"@ + (name@ + ".vrbl"@) =~= quest@.var_dirpath + "/"@ + name@
        + ".vrbl"@);
    path
}

/// Which of `names` is the next whose variable is to be loaded, given what
/// came of loading the variables of the names before it: the name behind
/// those, as long as every variable so far was loaded.  After a failure,
/// and when all are loaded, there is no next.
pub fn qst_next_name(names: &Vec<String>, loaded: &Vec<Result<Variable, EngineError>>) -> (next:
    Option<usize>)
    ensures
        next is Some <==> loaded@.len() < names@.len() && forall|i: int|
            0 <= i < loaded@.len() ==> (#[trigger] loaded@[i]) is Ok,
        next matches Some(at) ==> at == loaded@.len(),
{
    if loaded.len() >= names.len() {
        return None;
    }
    let mut i: usize = 0;
    while i < loaded.len()
        invariant
            i <= loaded@.len(),
            forall|k: int| 0 <= k < i ==> (#[trigger] loaded@[k]) is Ok,
        decreases loaded@.len() - i,
    {
        if loaded[i].is_err() {
            return None;
        }
        i = i + 1;
    }
    Some(loaded.len())
}

/// The path of the next variable file to load for a question, given what
/// came of loading the files before it: the file, in the question's own
/// directory, of the first name that the question's text refers to and
/// for which nothing was loaded yet.  There is none where the flags of the
/// text are at fault, after a failure, and when all are loaded.
pub fn qst_next_load(quest: &Question, loaded: &Vec<Result<Variable, EngineError>>) -> (next:
    Option<String>)
    ensures
        next is Some <==> {
            &&& well_flagged(quest@.qtext, crate::FLAG)
            &&& loaded@.len() < referenced_names(quest@.qtext).len()
            &&& forall|i: int| 0 <= i < loaded@.len() ==> (#[trigger] loaded@[i]) is Ok
        },
        next matches Some(path) ==> path@ == quest@.var_dirpath + "/"@ + referenced_names(
            quest@.qtext,
        )[loaded@.len() as int] + ".vrbl"@,
{
    match flagged_names(&quest.qtext) {
        Err(_) => None,
        Ok(names) => {
            match qst_next_name(&names, loaded) {
                None => None,
                Some(at) => {
                    assert(name_views(names@)[at as int] == names@[at as int]@);
                    Some(qst_variable_path(quest, names[at].as_str()))
                },
            }
        },
    }
}

/// The text that stands for the variable `varname` in question text: the
/// name between two flags.
pub fn qst_make_var_replace_text(varname: &str) -> (rpltxt: String)
    ensures
        rpltxt@ == flagged(varname@),
{
    proof {
        reveal_strlit("\u{a7}");
    }
    let rpltxt = String::from_str("\u{a7}").concat(varname).concat("\u{a7}");
    assert("\u{a7}"@ =~= seq![crate::FLAG]);
    rpltxt
}

/// Replaces the characters of `text` from position `from` up to, not
/// including, position `to` with `rpltxt`.  Returns nothing where these
/// positions do not mark a part of the text.
pub fn qst_replace_selection(text: &str, from: usize, to: usize, rpltxt: &str) -> (replaced: Option<
    String,
>)
    ensures
        replaced is Some <==> from <= to <= text@.len(),
        replaced matches Some(newtext) ==> newtext@ == text@.subrange(0, from as int) + rpltxt@
            + text@.subrange(to as int, text@.len() as int),
{
    let length = text.unicode_len();
    if from <= to && to <= length {
        let head = text.substring_char(0, from);
        let tail = text.substring_char(to, length);
        Some(String::from_str(head).concat(rpltxt).concat(tail))
    } else {
        None
    }
}

/// Create a new question: a new question with the text `nowtext`, the
/// variables that the text refers to as far as they were loaded (see
/// `qst_fill_varvec_parsetext`), and the answer, objectives and
/// prerequisites given.  The question is appended to the bank, whatever
/// came of the loading, which is the result.
pub fn qst_create(
    bank: &mut Bank,
    nowtext: String,
    loaded: &Vec<Result<Variable, EngineError>>,
    answer: String,
    objectives: Vec<String>,
    prereqs: Vec<String>,
) -> (outcome: Result<(), FillError>)
    ensures
        final(bank)@.bank_title == old(bank)@.bank_title,
        final(bank)@.associated_textbook == old(bank)@.associated_textbook,
        final(bank)@.question_vec.len() == old(bank)@.question_vec.len() + 1,
        final(bank)@.question_vec.drop_last() == old(bank)@.question_vec,
        filled_from(nowtext@, loaded@, final(bank)@.question_vec.last().var_vec, outcome),
        final(bank)@.question_vec.last() == (QuestionModel {
            qtext: nowtext@,
            var_vec: final(bank)@.question_vec.last().var_vec,
            answer: answer@,
            objectives: name_views(objectives@),
            prereqs: name_views(prereqs@),
            ..QuestionModel::initial()
        }),
{
    let mut newquest = Question::new();
    newquest.qtext = nowtext;
    let outcome = qst_fill_varvec_parsetext(&mut newquest, loaded);
    newquest.answer = answer;
    newquest.objectives = objectives;
    newquest.prereqs = prereqs;
    let ghost before = bank@.question_vec;
    bank.question_vec.push(newquest);
    assert(bank@.question_vec =~= before.push(newquest@));
    assert(bank@.question_vec.drop_last() =~= before);
    outcome
}

/// Edit the question at `qst_idx`: the question takes the text `nowtext`,
/// the variables that the text refers to as far as they were loaded (see
/// `qst_fill_varvec_parsetext`), and the answer, objectives and
/// prerequisites given.  It keeps its place in the bank and its
/// directory, and every other question stays as it is.  What came of the
/// loading is the result.
pub fn qst_edit(
    bank: &mut Bank,
    qst_idx: usize,
    nowtext: String,
    loaded: &Vec<Result<Variable, EngineError>>,
    answer: String,
    objectives: Vec<String>,
    prereqs: Vec<String>,
) -> (outcome: Result<(), FillError>)
    requires
        qst_idx < old(bank)@.question_vec.len(),
    ensures
        final(bank)@.bank_title == old(bank)@.bank_title,
        final(bank)@.associated_textbook == old(bank)@.associated_textbook,
        final(bank)@.question_vec.len() == old(bank)@.question_vec.len(),
        forall|i: int|
            0 <= i < old(bank)@.question_vec.len() && i != qst_idx
                ==> #[trigger] final(bank)@.question_vec[i] == old(bank)@.question_vec[i],
        filled_from(nowtext@, loaded@, final(bank)@.question_vec[qst_idx as int].var_vec, outcome),
        final(bank)@.question_vec[qst_idx as int] == (QuestionModel {
            qtext: nowtext@,
            var_vec: final(bank)@.question_vec[qst_idx as int].var_vec,
            answer: answer@,
            objectives: name_views(objectives@),
            prereqs: name_views(prereqs@),
            ..old(bank)@.question_vec[qst_idx as int]
        }),
{
    let mut editqst = bank.question_vec[qst_idx].clone();
    editqst.qtext = nowtext;
    let outcome = qst_fill_varvec_parsetext(&mut editqst, loaded);
    editqst.answer = answer;
    editqst.objectives = objectives;
    editqst.prereqs = prereqs;
    let ghost before = bank@.question_vec;
    bank.question_vec.set(qst_idx, editqst);
    assert(bank@.question_vec =~= before.update(qst_idx as int, editqst@));
    outcome
}

/// The texts of the questions of a bank, in the bank's order: what a
/// question is chosen by.
pub fn qst_texts(bank: &Bank) -> (usevec: Vec<String>)
    ensures
        usevec@.len() == bank@.question_vec.len(),
        forall|i: int|
            0 <= i < usevec@.len() ==> (#[trigger] usevec@[i])@ == bank@.question_vec[i].qtext,
{
    let mut usevec: Vec<String> = Vec::new();
    let mut i: usize = 0;
    while i < bank.question_vec.len()
        invariant
            i <= bank.question_vec.len(),
            usevec@.len() == i,
            forall|k: int|
                0 <= k < i ==> (#[trigger] usevec@[k])@ == bank@.question_vec[k].qtext,
        decreases bank.question_vec.len() - i,
    {
        usevec.push(bank.question_vec[i].qtext.clone());
        i = i + 1;
    }
    usevec
}

/// The question of the bank whose text is `usequest`: the last of them
/// where several have that text, and a new question where none has.
pub fn qst_chooseqst(bank: &Bank, usequest: &str) -> (editquest: Question)
    ensures
        (forall|i: int|
            0 <= i < bank@.question_vec.len() ==> (#[trigger] bank@.question_vec[i]).qtext
                != usequest@) ==> editquest@ == QuestionModel::initial(),
        forall|i: int|
            0 <= i < bank@.question_vec.len() && (#[trigger] bank@.question_vec[i]).qtext
                == usequest@ && (forall|j: int|
                i < j < bank@.question_vec.len() ==> (#[trigger] bank@.question_vec[j]).qtext
                    != usequest@) ==> editquest@ == bank@.question_vec[i],
{
    let mut editquest = Question::new();
    let mut i: usize = 0;
    let ghost mut chosen: int = -1;
    while i < bank.question_vec.len()
        invariant
            i <= bank.question_vec.len(),
            -1 <= chosen < i,
            chosen == -1 ==> editquest@ == QuestionModel::initial(),
            chosen >= 0 ==> editquest@ == bank@.question_vec[chosen],
            chosen >= 0 ==> bank@.question_vec[chosen].qtext == usequest@,
            forall|j: int|
                chosen < j < i ==> (#[trigger] bank@.question_vec[j]).qtext != usequest@,
        decreases bank.question_vec.len() - i,
    {
        if same_text(bank.question_vec[i].qtext.as_str(), usequest) {
            editquest = bank.question_vec[i].clone();
            proof {
                chosen = i as int;
            }
        }
        i = i + 1;
    }
    editquest
}

/// Recalculation keeps the content of every variable of the type that the
/// variable's `var_type` names, in a question whose variables all have
/// parameters that agree with their types.
pub proof fn lemma_recalculated_matches_types(
    before: QuestionModel,
    supplies: Seq<ValueSupply>,
    after: QuestionModel,
)
    requires
        before.can_recalc(supplies),
        before.recalculated(supplies, after),
        forall|at: int|
            0 <= at < before.var_vec.len() ==> (#[trigger] before.var_vec[at]).params_consistent(),
    ensures
        forall|at: int|
            0 <= at < after.var_vec.len() ==> (#[trigger] after.var_vec[at]).content_matches_type(),
{
    assert forall|at: int| 0 <= at < after.var_vec.len() implies (#[trigger] after.var_vec[
        at
    ]).content_matches_type() by {
        assert(before.recalc_failure_at(supplies, at) is None);
        assert(before.var_vec[at].params_consistent());
        lemma_set_anew_matches_type(
            before.var_vec[at],
            supplies[at].read_optn,
            supplies[at].drawn,
            after.var_vec[at],
        );
    }
}

/// Recalculates a question: sets the value of each of its variables
/// anew, the variable at a place from what `supplies` holds at that place.
/// Where that fails for a variable, the question stays as it is, and the
/// failure of the first such variable is the result.
pub fn qst_recalc(quest: &mut Question, supplies: &Vec<ValueSupply>) -> (outcome: Result<
    (),
    EngineError,
>)
    ensures
        outcome is Ok <==> old(quest)@.can_recalc(supplies@),
        outcome is Ok ==> old(quest)@.recalculated(supplies@, final(quest)@),
        outcome matches Err(error) ==> old(quest)@.recalc_fails_with(supplies@, error),
        outcome is Err ==> final(quest)@ == old(quest)@,
{
    let mut fresh: Vec<Variable> = Vec::new();
    let mut at: usize = 0;
    while at < quest.var_vec.len()
        invariant
            at <= quest.var_vec.len(),
            quest@ == old(quest)@,
            variable_models(fresh@).len() == at,
            forall|k: int|
                0 <= k < at ==> (#[trigger] quest@.recalc_failure_at(supplies@, k)) is None,
            at <= supplies@.len(),
            forall|k: int|
                0 <= k < at ==> quest@.var_vec[k].set_anew(
                    supplies@[k].read_optn,
                    supplies@[k].drawn,
                    #[trigger] variable_models(fresh@)[k],
                ),
        decreases quest.var_vec.len() - at,
    {
        if at >= supplies.len() {
            assert(quest@.recalc_failure_at(supplies@, at as int) == Some(
                EngineError::NotFound,
            ));
            return Err(EngineError::NotFound);
        }
        let mut vrbl = quest.var_vec[at].clone();
        assert(vrbl@ == quest@.var_vec[at as int]);
        match vrbl_recalc(&mut vrbl, &supplies[at]) {
            Ok(()) => {
                let ghost before = fresh@;
                fresh.push(vrbl);
                assert(variable_models(fresh@) =~= variable_models(before).push(vrbl@));
            },
            Err(error) => {
                assert(quest@.recalc_failure_at(supplies@, at as int) == Some(error));
                return Err(error);
            },
        }
        at = at + 1;
    }
    let ghost recalculated = variable_models(fresh@);
    quest.var_vec = fresh;
    assert(quest@.var_vec == recalculated);
    Ok(())
}

} // verus!
