//! Variables: named, typed sources of a value that is either drawn from a
//! range of numbers or picked from a list.

use vstd::prelude::*;
use crate::global::{
    data_kind, data_tag, kind_tag, lemma_tag_names_its_kind, same_text, tag_kind, Content,
    DataKind, Decimal, EngineError, TypeWrapper,
};
use crate::lists::{list_sample, List, ListModel};
use crate::math_functions::math_gen_random_num;

verus! {

/// Struct that holds the parameters that determine the behavior of a
/// Variable.
#[derive(Clone, Copy, Debug, PartialEq, Eq, Structural)]
pub struct VarPrmtrs {
    pub is_string: bool,
    pub is_char: bool,
    pub is_from_list: bool,
    pub is_int: bool,
    pub is_float: bool,
    pub num_min_int: i64,
    pub num_max_int: i64,
    pub num_min_float: Decimal,
    pub num_max_float: Decimal,
    pub num_dcml_places: usize,
    pub num_comma_frmttd: bool,
}

/// Where a variable's value comes from.
#[derive(Clone, Copy, Debug, PartialEq, Eq, Structural)]
pub enum ValueSource {
    /// One of the values of a list.
    List,
    /// A whole number drawn from the range of the integer bounds.
    RandomInteger,
    /// A decimal drawn from the range of the decimal bounds and rounded.
    RandomDecimal,
}

impl VarPrmtrs {
    /// The parameters of an integer variable with all ranges at 0.
    pub open spec fn initial() -> VarPrmtrs {
        VarPrmtrs {
            is_string: false,
            is_char: false,
            is_from_list: false,
            is_int: true,
            is_float: false,
            num_min_int: 0,
            num_max_int: 0,
            num_min_float: Decimal { bits: 0 },
            num_max_float: Decimal { bits: 0 },
            num_dcml_places: 0,
            num_comma_frmttd: false,
        }
    }

    /// Where a variable with these parameters takes its value from: a list
    /// where one is asked for, else the integer range of an integer
    /// variable, else the decimal range.
    pub open spec fn source(self) -> ValueSource {
        if self.is_from_list {
            ValueSource::List
        } else if self.is_int {
            ValueSource::RandomInteger
        } else {
            ValueSource::RandomDecimal
        }
    }

    /// The parameters say of exactly one type that the variable is of it,
    /// and that type is `kind`; strings and characters come from a list.
    pub open spec fn consistent_with(self, kind: DataKind) -> bool {
        &&& self.is_string == (kind == DataKind::Strings)
        &&& self.is_char == (kind == DataKind::Characters)
        &&& self.is_int == (kind == DataKind::Ints)
        &&& self.is_float == (kind == DataKind::Floats)
        &&& (kind == DataKind::Strings || kind == DataKind::Characters) ==> self.is_from_list
    }

    /// Creates the parameters of a new variable.  Sets the default
    /// variable type to `int` and all ranges to 0.
    pub fn new() -> (params: VarPrmtrs)
        ensures
            params == VarPrmtrs::initial(),
    {
        VarPrmtrs {
            is_string: false,
            is_char: false,
            is_from_list: false,
            is_int: true,
            is_float: false,
            num_min_int: 0,
            num_max_int: 0,
            num_min_float: Decimal { bits: 0 },
            num_max_float: Decimal { bits: 0 },
            num_dcml_places: 0,
            num_comma_frmttd: false,
        }
    }
}

impl Default for VarPrmtrs {
    fn default() -> (params: VarPrmtrs)
        ensures
            params == VarPrmtrs::initial(),
    {
        VarPrmtrs::new()
    }
}

/// The third and innermost layer of the three struct nest that a bank is
/// built around.
#[derive(Debug, PartialEq)]
pub struct Variable {
    pub var_fname: String,
    pub display_name: String,
    pub params: VarPrmtrs,
    pub list_fname: String,
    pub content: TypeWrapper,
    pub var_type: String,
}

/// What a `Variable` holds, as mathematical values.
pub struct VariableModel {
    pub var_fname: Seq<char>,
    pub display_name: Seq<char>,
    pub params: VarPrmtrs,
    pub list_fname: Seq<char>,
    pub content: Content,
    pub var_type: Seq<char>,
}

impl VariableModel {
    /// A variable as it is before anything was entered for it: an integer
    /// variable with the value 0 and all ranges at 0.
    pub open spec fn initial() -> VariableModel {
        VariableModel {
            var_fname: "New_Variable"@,
            display_name: "New_Variable"@,
            params: VarPrmtrs::initial(),
            list_fname: Seq::empty(),
            content: Content::Integer(0),
            var_type: "ints"@,
        }
    }

    /// The content is of the type that `var_type` names.
    pub open spec fn content_matches_type(self) -> bool {
        tag_kind(self.var_type) == Some(self.content.kind())
    }

    /// `var_type` names a type, and the parameters agree with it.
    pub open spec fn params_consistent(self) -> bool {
        match tag_kind(self.var_type) {
            Some(kind) => self.params.consistent_with(kind),
            None => false,
        }
    }

    /// A list can give this variable its value: the variable's type is one
    /// of the four, and the list is of that type.
    pub open spec fn takes_from(self, list: ListModel) -> bool {
        tag_kind(self.var_type) is Some && list.typechoice == self.var_type
    }

    /// Why the value of this variable cannot be set, if it cannot.  Only a
    /// variable that takes its value from a list can fail: with
    /// `NotFound` where no list was read for it, with `Malformed` where the
    /// list cannot give it its value, and with `EmptyCollection` where the
    /// list has no value to give.
    pub open spec fn failure(self, read_optn: Option<(String, List)>) -> Option<EngineError> {
        if self.params.source() != ValueSource::List {
            None
        } else {
            match read_optn {
                None => Some(EngineError::NotFound),
                Some((_, list)) => if !self.takes_from(list@) {
                    Some(EngineError::Malformed)
                } else if list@.candidates().len() == 0 {
                    Some(EngineError::EmptyCollection)
                } else {
                    None
                },
            }
        }
    }

    /// `after` is this variable with its value set anew: one of the
    /// values of the list that was read, with the name of the list's file
    /// as `list_fname`; or an integer from `num_min_int` to `num_max_int`;
    /// or the decimal `drawn`.  Nothing else differs.
    pub open spec fn set_anew(
        self,
        read_optn: Option<(String, List)>,
        drawn: Decimal,
        after: VariableModel,
    ) -> bool {
        match self.params.source() {
            ValueSource::List => {
                &&& read_optn matches Some((fname, list))
                &&& list@.candidates().contains(after.content)
                &&& after == (VariableModel { list_fname: fname@, content: after.content, ..self })
            },
            ValueSource::RandomInteger => {
                &&& after.content matches Content::Integer(number)
                &&& self.params.num_min_int <= number <= self.params.num_max_int
                &&& after == (VariableModel { content: after.content, ..self })
            },
            ValueSource::RandomDecimal => after == (VariableModel {
                content: Content::Floating(drawn),
                ..self
            }),
        }
    }

    /// This variable after its value could not be set: it is as it was,
    /// but that a list which could have given the value has left the name
    /// of its file as `list_fname`.
    pub open spec fn after_failure(self, read_optn: Option<(String, List)>) -> VariableModel {
        match read_optn {
            Some((fname, list)) => if self.takes_from(list@) {
                VariableModel { list_fname: fname@, ..self }
            } else {
                self
            },
            None => self,
        }
    }

    /// Why this variable cannot be recalculated from `supply`, if it
    /// cannot: with `NotFound` where nothing was supplied for it, with
    /// `Malformed` where its integer bounds are out of order, and else as
    /// the setting of its value fails.
    pub open spec fn recalc_failure(self, supply: Option<ValueSupply>) -> Option<EngineError> {
        match supply {
            None => Some(EngineError::NotFound),
            Some(given) => if self.params.source() == ValueSource::RandomInteger
                && self.params.num_min_int > self.params.num_max_int {
                Some(EngineError::Malformed)
            } else {
                self.failure(given.read_optn)
            },
        }
    }
}

/// What was obtained for a variable before its value is set anew: the
/// list that was read for it, if one was, and the decimal that was drawn
/// and rounded for it.
#[derive(Debug, PartialEq)]
pub struct ValueSupply {
    pub read_optn: Option<(String, List)>,
    pub drawn: Decimal,
}

impl View for Variable {
    type V = VariableModel;

    open spec fn view(&self) -> VariableModel {
        VariableModel {
            var_fname: self.var_fname@,
            display_name: self.display_name@,
            params: self.params,
            list_fname: self.list_fname@,
            content: self.content@,
            var_type: self.var_type@,
        }
    }
}

impl Default for Variable {
    fn default() -> (var: Variable)
        ensures
            var@ == VariableModel::initial(),
            var@.content_matches_type(),
            var@.params_consistent(),
    {
        proof {
            lemma_tag_names_its_kind(DataKind::Ints);
        }
        Variable {
            var_fname: String::from_str("New_Variable"),
            display_name: String::from_str("New_Variable"),
            params: VarPrmtrs::new(),
            list_fname: String::new(),
            content: TypeWrapper::Integer(0),
            var_type: String::from_str("ints"),
        }
    }
}

impl Clone for Variable {
    fn clone(&self) -> (copy: Variable)
        ensures
            copy@ == self@,
    {
        Variable {
            var_fname: self.var_fname.clone(),
            display_name: self.display_name.clone(),
            params: self.params,
            list_fname: self.list_fname.clone(),
            content: self.content.clone(),
            var_type: self.var_type.clone(),
        }
    }
}

impl Variable {
    /// Initialize a new Variable: an integer variable with the value 0.
    pub fn new() -> (var: Variable)
        ensures
            var@ == VariableModel::initial(),
            var@.content_matches_type(),
            var@.params_consistent(),
    {
        Variable::default()
    }
}

/// What was entered in the parameters box of a variable.
#[derive(Clone, Copy, Debug)]
pub struct VarInput {
    /// The type chosen for the variable.
    pub kind: DataKind,
    /// Numbers are to be shown with commas.
    pub comma_formatted: bool,
    /// The value is to come from a list.
    pub from_list: bool,
    /// The least and the greatest integer, for an integer variable.
    pub int_min: i64,
    pub int_max: i64,
    /// The least and the greatest decimal and the number of decimal
    /// places, for a decimal variable.
    pub decimal_min: Decimal,
    pub decimal_max: Decimal,
    pub decimal_places: usize,
}

impl VarInput {
    /// Strings and characters have no range to be drawn from: they can
    /// only come from a list.
    pub open spec fn acceptable(self) -> bool {
        (self.kind == DataKind::Strings || self.kind == DataKind::Characters) ==> self.from_list
    }

    /// The parameters that this input asks for: the type, the two check
    /// boxes and the bounds of the chosen type.  What was entered for
    /// another type is left out.
    pub open spec fn params(self) -> VarPrmtrs {
        VarPrmtrs {
            is_string: self.kind == DataKind::Strings,
            is_char: self.kind == DataKind::Characters,
            is_from_list: self.from_list,
            is_int: self.kind == DataKind::Ints,
            is_float: self.kind == DataKind::Floats,
            num_min_int: if self.kind == DataKind::Ints {
                self.int_min
            } else {
                0
            },
            num_max_int: if self.kind == DataKind::Ints {
                self.int_max
            } else {
                0
            },
            num_min_float: if self.kind == DataKind::Floats {
                self.decimal_min
            } else {
                Decimal { bits: 0 }
            },
            num_max_float: if self.kind == DataKind::Floats {
                self.decimal_max
            } else {
                Decimal { bits: 0 }
            },
            num_dcml_places: if self.kind == DataKind::Floats {
                self.decimal_places
            } else {
                0
            },
            num_comma_frmttd: self.comma_formatted,
        }
    }

    /// The variable that this input describes: a new variable with the
    /// chosen type, the parameters asked for, and the blank content of
    /// that type.
    pub open spec fn variable(self) -> VariableModel {
        VariableModel {
            params: self.params(),
            content: Content::blank(self.kind),
            var_type: kind_tag(self.kind),
            ..VariableModel::initial()
        }
    }
}

/// The type that is chosen by the four buttons of which one is pressed:
/// that of the first pressed button, in the order strings, characters,
/// integers, decimals, and none where none is pressed.
pub fn vrbl_choose_type(
    strings: bool,
    characters: bool,
    integers: bool,
    decimals: bool,
) -> (kind: Option<DataKind>)
    ensures
        kind == if strings {
            Some(DataKind::Strings)
        } else if characters {
            Some(DataKind::Characters)
        } else if integers {
            Some(DataKind::Ints)
        } else if decimals {
            Some(DataKind::Floats)
        } else {
            None::<DataKind>
        },
{
    if strings {
        Some(DataKind::Strings)
    } else if characters {
        Some(DataKind::Characters)
    } else if integers {
        Some(DataKind::Ints)
    } else if decimals {
        Some(DataKind::Floats)
    } else {
        None
    }
}

/// Puts what was entered in the parameters box into `var1`, which becomes
/// a new variable of the chosen type with the parameters asked for and
/// the blank content of that type.
///
/// A string or character variable that is not to come from a list is
/// refused with `Malformed`, and `var1` stays as it is.
pub fn vrbl_parameters_input_box(var1: &mut Variable, entered: &VarInput) -> (outcome: Result<
    (),
    EngineError,
>)
    ensures
        outcome is Ok <==> entered.acceptable(),
        outcome matches Err(error) ==> error == EngineError::Malformed,
        outcome is Err ==> final(var1)@ == old(var1)@,
        outcome is Ok ==> final(var1)@ == entered.variable(),
        outcome is Ok ==> final(var1)@.params_consistent() && final(var1)@.content_matches_type(),
{
    let textual = match entered.kind {
        DataKind::Strings => true,
        DataKind::Characters => true,
        DataKind::Ints => false,
        DataKind::Floats => false,
    };
    if textual && !entered.from_list {
        return Err(EngineError::Malformed);
    }
    let mut datavar = Variable::new();
    datavar.var_type = String::from_str(data_tag(entered.kind));
    datavar.content = TypeWrapper::blank(entered.kind);
    datavar.params.num_comma_frmttd = entered.comma_formatted;
    datavar.params.is_from_list = entered.from_list;
    datavar.params.is_int = false;
    match entered.kind {
        DataKind::Strings => {
            datavar.params.is_string = true;
        },
        DataKind::Characters => {
            datavar.params.is_char = true;
        },
        DataKind::Ints => {
            datavar.params.is_int = true;
            datavar.params.num_min_int = entered.int_min;
            datavar.params.num_max_int = entered.int_max;
        },
        DataKind::Floats => {
            datavar.params.is_float = true;
            datavar.params.num_min_float = entered.decimal_min;
            datavar.params.num_max_float = entered.decimal_max;
            datavar.params.num_dcml_places = entered.decimal_places;
        },
    }
    proof {
        lemma_tag_names_its_kind(entered.kind);
    }
    *var1 = datavar;
    Ok(())
}

/// Where `var1` takes its value from.  A list has to be read, and a
/// decimal has to be drawn and rounded, before the value can be set.
pub fn vrbl_source(var1: &Variable) -> (source: ValueSource)
    ensures
        source == var1@.params.source(),
{
    if var1.params.is_from_list {
        ValueSource::List
    } else if var1.params.is_int {
        ValueSource::RandomInteger
    } else {
        ValueSource::RandomDecimal
    }
}

/// Sets the content of `var1` anew, as its parameters ask.
///
/// - From a list: `read_optn` is the list that was read for the variable,
///   with the name of its file.  The name becomes `list_fname`, and one of
///   the list's values, picked at random, becomes the content.  Without a
///   list the outcome is `NotFound`; with a list of another type than the
///   variable's, or a variable of no known type, it is `Malformed`; with a
///   list that holds nothing it is `EmptyCollection`.  No number is drawn
///   in place of a value that the list did not give.
/// - An integer variable: the content is a number drawn from
///   `num_min_int` to `num_max_int`, both included.
/// - Else: the content is `drawn`, the decimal that the caller drew from
///   the decimal range and rounded.
///
/// Nothing but the content and, with a list, `list_fname` changes.
pub fn vrbl_setvalues(
    var1: &mut Variable,
    read_optn: &Option<(String, List)>,
    drawn: Decimal,
) -> (outcome: Result<(), EngineError>)
    requires
        old(var1)@.params.source() == ValueSource::RandomInteger ==> old(var1).params.num_min_int
            <= old(var1).params.num_max_int,
    ensures
        outcome == match old(var1)@.failure(*read_optn) {
            Some(error) => Err::<(), EngineError>(error),
            None => Ok::<(), EngineError>(()),
        },
        outcome is Ok ==> old(var1)@.set_anew(*read_optn, drawn, final(var1)@),
        outcome is Err ==> final(var1)@ == old(var1)@.after_failure(*read_optn),
        outcome is Ok && old(var1)@.params_consistent() ==> final(var1)@.content_matches_type(),
{
    match vrbl_source(var1) {
        ValueSource::List => {
            match read_optn {
                None => Err(EngineError::NotFound),
                Some((fname, newlist)) => {
                    if data_kind(var1.var_type.as_str()).is_none() {
                        return Err(EngineError::Malformed);
                    }
                    if !same_text(newlist.typechoice.as_str(), var1.var_type.as_str()) {
                        return Err(EngineError::Malformed);
                    }
                    var1.list_fname = fname.clone();
                    match list_sample(newlist) {
                        Ok(item) => {
                            proof {
                                lemma_candidates_are_of_the_type(newlist@, item@);
                            }
                            var1.content = item;
                            Ok(())
                        },
                        Err(error) => Err(error),
                    }
                },
            }
        },
        ValueSource::RandomInteger => {
            let numint: i64 = math_gen_random_num(var1.params.num_min_int, var1.params.num_max_int);
            var1.content = TypeWrapper::Integer(numint);
            Ok(())
        },
        ValueSource::RandomDecimal => {
            var1.content = TypeWrapper::Floating(drawn);
            Ok(())
        },
    }
}

/// A number that is drawn for an integer variable lies within the
/// variable's bounds.
pub proof fn lemma_drawn_integer_within_bounds(
    before: VariableModel,
    read_optn: Option<(String, List)>,
    drawn: Decimal,
    after: VariableModel,
)
    requires
        before.params.is_int,
        !before.params.is_from_list,
        before.set_anew(read_optn, drawn, after),
    ensures
        after.content matches Content::Integer(number) && before.params.num_min_int <= number
            <= before.params.num_max_int,
{
}

/// A value that a variable takes from a list is one of the list's values,
/// and the list's file gives the variable its `list_fname`.
pub proof fn lemma_value_from_list(
    before: VariableModel,
    fname: String,
    list: List,
    drawn: Decimal,
    after: VariableModel,
)
    requires
        before.params.is_from_list,
        before.set_anew(Some((fname, list)), drawn, after),
    ensures
        list@.candidates().contains(after.content),
        after.list_fname == fname@,
{
}

/// Setting the value anew keeps the content of the type that `var_type`
/// names, in a variable whose parameters agree with that type.
pub proof fn lemma_set_anew_matches_type(
    before: VariableModel,
    read_optn: Option<(String, List)>,
    drawn: Decimal,
    after: VariableModel,
)
    requires
        before.params_consistent(),
        before.failure(read_optn) is None,
        before.set_anew(read_optn, drawn, after),
    ensures
        after.content_matches_type(),
        after.params_consistent(),
{
    if before.params.source() == ValueSource::List {
        match read_optn {
            Some((_, list)) => {
                lemma_candidates_are_of_the_type(list@, after.content);
            },
            None => {},
        }
    }
}

/// Every value that a list offers is of the type that the list's
/// `typechoice` names.
pub proof fn lemma_candidates_are_of_the_type(list: ListModel, value: Content)
    requires
        list.candidates().contains(value),
    ensures
        tag_kind(list.typechoice) == Some(value.kind()),
{
    let i = choose|i: int| 0 <= i < list.candidates().len() && list.candidates()[i] == value;
    assert(list.candidates()[i] == value);
}

/// Create a new variable from what was entered in the parameters box,
/// and set its value for the first time.
///
/// Fails with `Malformed` where the input is refused, and as the setting
/// of the value fails.
pub fn vrbl_create(
    entered: &VarInput,
    read_optn: &Option<(String, List)>,
    drawn: Decimal,
) -> (created: Result<Variable, EngineError>)
    requires
        entered.kind == DataKind::Ints && !entered.from_list ==> entered.int_min <= entered.int_max,
    ensures
        !entered.acceptable() ==> (created matches Err(error) && error == EngineError::Malformed),
        entered.acceptable() ==> match entered.variable().failure(*read_optn) {
            Some(reason) => (created matches Err(error) && error == reason),
            None => {
                &&& created matches Ok(var)
                &&& entered.variable().set_anew(*read_optn, drawn, var@)
                &&& var@.content_matches_type()
            },
        },
{
    let mut var1 = Variable::new();
    match vrbl_parameters_input_box(&mut var1, entered) {
        Err(error) => Err(error),
        Ok(()) => {
            match vrbl_setvalues(&mut var1, read_optn, drawn) {
                Err(error) => Err(error),
                Ok(()) => Ok(var1),
            }
        },
    }
}

/// The name of the file that holds the variable `name`: the name with the
/// ending of variable files.
pub open spec fn variable_file(name: Seq<char>) -> Seq<char> {
    name + ".vrbl"@
}

/// The name of the variable that the file `fname` holds: the file's name
/// without the ending of variable files, or all of it where it has no
/// such ending.
pub open spec fn variable_name(fname: Seq<char>) -> Seq<char> {
    let ending = ".vrbl"@;
    if fname.len() >= ending.len() && fname.subrange(fname.len() - ending.len(), fname.len() as int)
        == ending {
        fname.subrange(0, fname.len() - ending.len())
    } else {
        fname
    }
}

/// The file of a variable gives the variable's name back.
pub proof fn lemma_name_of_its_file(name: Seq<char>)
    ensures
        variable_name(variable_file(name)) == name,
{
    let ending = ".vrbl"@;
    let fname = variable_file(name);
    assert(fname.subrange(fname.len() - ending.len(), fname.len() as int) =~= ending);
    assert(fname.subrange(0, fname.len() - ending.len()) =~= name);
}

/// The name of the file that holds the variable `name`.
pub fn vrbl_file_of_name(name: &str) -> (fname: String)
    ensures
        fname@ == variable_file(name@),
{
    String::from_str(name).concat(".vrbl")
}

/// The name of the variable that the file `fname` holds.
pub fn vrbl_name_of_file(fname: &str) -> (name: String)
    ensures
        name@ == variable_name(fname@),
{
    let length = fname.unicode_len();
    let ending = ".vrbl".unicode_len();
    if length >= ending && same_text(fname.substring_char(length - ending, length), ".vrbl") {
        String::from_str(fname.substring_char(0, length - ending))
    } else {
        String::from_str(fname)
    }
}

/// Gives a variable its name from the name of the file that it is saved
/// in, which is the file's name without the ending of variable files.
pub fn vrbl_save(var1: &mut Variable, fname: String)
    ensures
        final(var1)@ == (VariableModel { var_fname: variable_name(fname@), ..old(var1)@ }),
{
    var1.var_fname = vrbl_name_of_file(fname.as_str());
}

/// The path of the file that holds the variable `fname` in the directory
/// `usepath`.
pub fn vrbl_readpath(usepath: &str, fname: &str) -> (readpath: String)
    ensures
        readpath@ == usepath@ + "/"@ + fname@,
{
    String::from_str(usepath).concat("/").concat(fname)
}

/// Recalculates a variable: sets its value anew from what was supplied
/// for it, or leaves it as it is where that fails.  Integer bounds that
/// are out of order make it fail with `Malformed`.
pub fn vrbl_recalc(vrbl: &mut Variable, supply: &ValueSupply) -> (outcome: Result<(), EngineError>)
    ensures
        outcome == match old(vrbl)@.recalc_failure(Some(*supply)) {
            Some(error) => Err::<(), EngineError>(error),
            None => Ok::<(), EngineError>(()),
        },
        outcome is Ok ==> old(vrbl)@.set_anew(supply.read_optn, supply.drawn, final(vrbl)@),
        outcome is Ok && old(vrbl)@.params_consistent() ==> final(vrbl)@.content_matches_type(),
        outcome is Err ==> final(vrbl)@ == old(vrbl)@,
{
    if !vrbl.params.is_from_list && vrbl.params.is_int && vrbl.params.num_min_int
        > vrbl.params.num_max_int {
        return Err(EngineError::Malformed);
    }
    let mut fresh = vrbl.clone();
    match vrbl_setvalues(&mut fresh, &supply.read_optn, supply.drawn) {
        Ok(()) => {
            *vrbl = fresh;
            Ok(())
        },
        Err(error) => Err(error),
    }
}

} // verus!
