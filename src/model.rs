//! Transition systems in VMT form and their extraction from a declaration sequence.
use vstd::prelude::*;
use crate::syntax::{
    lemma_terms_view, get_single_attribute, has_text, single_attribute, term_text, Command, CommandView,
    DeclarationView, FunctionDeclaration, SortDeclaration, SortDeclarationView, Term, TermView,
};
use crate::builder::{rename_term, RenamerView, VMTBuilder};
use crate::smt::{step_definitions, ProblemView, SMTProblem};
use crate::laws::lemma_unroll_counts;
use crate::text::{scrub_variable_name, scrubbed};

verus! {

pub const PROPERTY_ATTRIBUTE: &'static str = "invar-property";

pub const TRANSITION_ATTRIBUTE: &'static str = "trans";

pub const INITIAL_ATTRIBUTE: &'static str = "init";

pub const NEXT_ATTRIBUTE: &'static str = "next";

pub const ACTION_ATTRIBUTE: &'static str = "action";

/// Why a declaration sequence is no transition system.
#[derive(PartialEq, Eq, Structural, Clone, Copy, Debug)]
pub enum VMTError {
    /// Fewer than four declarations.
    InsufficientDeclarations,
    /// One of the last three declarations is not a definition whose body carries
    /// the single attribute `:invar-property`, `:trans` or `:init` that its place asks for.
    IllFormedComponent,
    /// A declaration before the last three is neither `declare-fun`, `define-fun`
    /// nor `declare-sort`.
    UnrecognizedDeclaration,
    /// A relationship definition whose body does not carry exactly one attribute.
    MalformedRelationship,
    /// A relationship names a variable that no `declare-fun` declares.
    UnknownVariable,
    /// A relationship attribute other than `:next` and `:action`.
    UnsupportedAttribute,
    /// A `:next` relationship pairs a variable with itself, or names a declaration
    /// with parameters; or an `:action` relationship names one with parameters.
    InvalidVariable,
}

/// A state variable: its current-frame and next-frame declarations.
pub struct Variable {
    pub current: FunctionDeclaration,
    pub next: FunctionDeclaration,
}

pub struct VariableView {
    pub current: DeclarationView,
    pub next: DeclarationView,
}

impl View for Variable {
    type V = VariableView;

    open spec fn view(&self) -> VariableView {
        VariableView { current: self.current@, next: self.next@ }
    }
}

impl Variable {
    pub fn get_current_variable_name(&self) -> (r: &String)
        ensures
            r@ == self@.current.symbol,
    {
        &self.current.symbol
    }

    pub fn get_next_variable_name(&self) -> (r: &String)
        ensures
            r@ == self@.next.symbol,
    {
        &self.next.symbol
    }
}

/// An action (an input of the system): one declaration.
pub struct Action {
    pub action_command: FunctionDeclaration,
}

impl View for Action {
    type V = DeclarationView;

    open spec fn view(&self) -> DeclarationView {
        self.action_command@
    }
}

impl Action {
    pub fn get_current_action_name(&self) -> (r: &String)
        ensures
            r@ == self@.symbol,
    {
        &self.action_command.symbol
    }
}

/// A symbolic transition system.
pub struct VMTModel {
    pub sorts: Vec<SortDeclaration>,
    pub state_variables: Vec<Variable>,
    pub actions: Vec<Action>,
    pub initial_condition: Term,
    pub transition_condition: Term,
    pub property_condition: Term,
}

pub struct ModelView {
    pub sorts: Seq<SortDeclarationView>,
    pub variables: Seq<VariableView>,
    pub actions: Seq<DeclarationView>,
    pub init: TermView,
    pub trans: TermView,
    pub prop: TermView,
}

impl View for VMTModel {
    type V = ModelView;

    open spec fn view(&self) -> ModelView {
        ModelView {
            sorts: self.sorts@.map_values(|d: SortDeclaration| d@),
            variables: self.state_variables@.map_values(|v: Variable| v@),
            actions: self.actions@.map_values(|a: Action| a@),
            init: self.initial_condition@,
            trans: self.transition_condition@,
            prop: self.property_condition@,
        }
    }
}

pub open spec fn commands_view(cmds: Seq<Command>) -> Seq<CommandView> {
    cmds.map_values(|c: Command| c@)
}

/// The term that a definition wraps in the single attribute `keyword`.
pub open spec fn component(c: CommandView, keyword: Seq<char>) -> Option<TermView> {
    match c {
        CommandView::DefineFun(d) => match single_attribute(d.term) {
            Some((t, k, _)) => if k == keyword {
                Some(t)
            } else {
                None
            },
            None => None,
        },
        _ => None,
    }
}

pub open spec fn recognized(c: CommandView) -> bool {
    c is DeclareFun || c is DefineFun || c is DeclareSort
}

/// The sort declarations among the first `n` commands, in order.
pub open spec fn sorts_of(cmds: Seq<CommandView>, n: int) -> Seq<SortDeclarationView>
    decreases n,
{
    if n <= 0 {
        Seq::empty()
    } else {
        match cmds[n - 1] {
            CommandView::DeclareSort(d) => sorts_of(cmds, n - 1).push(d),
            _ => sorts_of(cmds, n - 1),
        }
    }
}

/// The function declarations among the first `n` commands, in order.
pub open spec fn declarations_of(cmds: Seq<CommandView>, n: int) -> Seq<DeclarationView>
    decreases n,
{
    if n <= 0 {
        Seq::empty()
    } else {
        match cmds[n - 1] {
            CommandView::DeclareFun(d) => declarations_of(cmds, n - 1).push(d),
            _ => declarations_of(cmds, n - 1),
        }
    }
}

/// The last of the first `i` declarations that declares `name`.
pub open spec fn find_declaration(decls: Seq<DeclarationView>, name: Seq<char>, i: int) -> Option<
    DeclarationView,
>
    decreases i,
{
    if i <= 0 {
        None
    } else if decls[i - 1].symbol == name {
        Some(decls[i - 1])
    } else {
        find_declaration(decls, name, i - 1)
    }
}

/// The declaration of the variable that a term names, looked up by its text
/// without quoting bars.
pub open spec fn named_declaration(decls: Seq<DeclarationView>, text: Seq<char>) -> Option<
    DeclarationView,
> {
    find_declaration(decls, scrubbed(text), decls.len() as int)
}

/// A state variable's two declarations have no parameters and different names.
pub open spec fn variable_wf(v: VariableView) -> bool {
    v.current.parameters.len() == 0 && v.next.parameters.len() == 0 && v.current.symbol
        != v.next.symbol
}

/// Every state variable is well formed and every action is declared without
/// parameters.
pub open spec fn model_wf(m: ModelView) -> bool {
    &&& forall|i: int| 0 <= i < m.variables.len() ==> variable_wf(#[trigger] m.variables[i])
    &&& forall|i: int| 0 <= i < m.actions.len() ==> (#[trigger] m.actions[i]).parameters.len() == 0
}

/// What one relationship definition establishes.
pub enum Relationship {
    Next(VariableView),
    Act(DeclarationView),
}

pub open spec fn relationship(body: TermView, decls: Seq<DeclarationView>) -> Result<
    Relationship,
    VMTError,
> {
    match single_attribute(body) {
        None => Err(VMTError::MalformedRelationship),
        Some((t, k, v)) => {
            if k == NEXT_ATTRIBUTE@ {
                let value_text = match v {
                    Some(x) => term_text(x),
                    None => Seq::empty(),
                };
                match (named_declaration(decls, term_text(t)), named_declaration(decls, value_text)) {
                    (Some(c), Some(x)) => {
                        let v = VariableView { current: c, next: x };
                        if variable_wf(v) {
                            Ok(Relationship::Next(v))
                        } else {
                            Err(VMTError::InvalidVariable)
                        }
                    },
                    _ => Err(VMTError::UnknownVariable),
                }
            } else if k == ACTION_ATTRIBUTE@ {
                match named_declaration(decls, term_text(t)) {
                    Some(a) => if a.parameters.len() == 0 {
                        Ok(Relationship::Act(a))
                    } else {
                        Err(VMTError::InvalidVariable)
                    },
                    None => Err(VMTError::UnknownVariable),
                }
            } else {
                Err(VMTError::UnsupportedAttribute)
            }
        },
    }
}

/// The state variables and actions that the definitions among the first `n`
/// commands establish, or the first error among them.
pub open spec fn relationships_of(cmds: Seq<CommandView>, decls: Seq<DeclarationView>, n: int) -> Result<
    (Seq<VariableView>, Seq<DeclarationView>),
    VMTError,
>
    decreases n,
{
    if n <= 0 {
        Ok((Seq::empty(), Seq::empty()))
    } else {
        match relationships_of(cmds, decls, n - 1) {
            Err(e) => Err(e),
            Ok((vs, acts)) => match cmds[n - 1] {
                CommandView::DefineFun(d) => match relationship(d.term, decls) {
                    Err(e) => Err(e),
                    Ok(Relationship::Next(v)) => Ok((vs.push(v), acts)),
                    Ok(Relationship::Act(a)) => Ok((vs, acts.push(a))),
                },
                _ => Ok((vs, acts)),
            },
        }
    }
}

/// Whether `name` is the current-frame or next-frame name of a state variable, or
/// the name of an action.
pub open spec fn claimed(name: Seq<char>, vs: Seq<VariableView>, acts: Seq<DeclarationView>) -> bool {
    (exists|i: int|
        0 <= i < vs.len() && ((#[trigger] vs[i]).current.symbol == name || vs[i].next.symbol == name))
        || (exists|i: int| 0 <= i < acts.len() && (#[trigger] acts[i]).symbol == name)
}

/// Whether some declaration without parameters names neither a state variable nor
/// an action: a variable that no relationship accounts for.
pub open spec fn has_unclaimed_declaration(
    decls: Seq<DeclarationView>,
    vs: Seq<VariableView>,
    acts: Seq<DeclarationView>,
) -> bool {
    exists|j: int|
        0 <= j < decls.len() && (#[trigger] decls[j]).parameters.len() == 0 && !claimed(
            decls[j].symbol,
            vs,
            acts,
        )
}

/// The transition system that a declaration sequence describes.
pub open spec fn extracted(cmds: Seq<CommandView>) -> Result<ModelView, VMTError> {
    let n = cmds.len() as int;
    if n < 4 {
        Err(VMTError::InsufficientDeclarations)
    } else if component(cmds[n - 1], PROPERTY_ATTRIBUTE@) is None || component(
        cmds[n - 2],
        TRANSITION_ATTRIBUTE@,
    ) is None || component(cmds[n - 3], INITIAL_ATTRIBUTE@) is None {
        Err(VMTError::IllFormedComponent)
    } else if exists|i: int| 0 <= i < n - 3 && !recognized(#[trigger] cmds[i]) {
        Err(VMTError::UnrecognizedDeclaration)
    } else {
        match relationships_of(cmds, declarations_of(cmds, n - 3), n - 3) {
            Err(e) => Err(e),
            Ok((vs, acts)) => if has_unclaimed_declaration(declarations_of(cmds, n - 3), vs, acts) {
                Err(VMTError::UnknownVariable)
            } else {
                Ok(
                    ModelView {
                        sorts: sorts_of(cmds, n - 3),
                        variables: vs,
                        actions: acts,
                        init: component(cmds[n - 3], INITIAL_ATTRIBUTE@)->0,
                        trans: component(cmds[n - 2], TRANSITION_ATTRIBUTE@)->0,
                        prop: component(cmds[n - 1], PROPERTY_ATTRIBUTE@)->0,
                    },
                )
            },
        }
    }
}

pub open spec fn declarations_view(decls: Seq<FunctionDeclaration>) -> Seq<DeclarationView> {
    decls.map_values(|d: FunctionDeclaration| d@)
}

/// Whether a command is a definition whose body carries the single attribute `attribute`.
pub fn command_has_attribute_string(command: &Command, attribute: &str) -> (r: bool)
    ensures
        r == component(command@, attribute@) is Some,
{
    match command {
        Command::DefineFun(d) => match get_single_attribute(&d.term) {
            Some((_, k, _)) => has_text(k, attribute),
            None => false,
        },
        _ => false,
    }
}

/// The term that a definition wraps in the single attribute `attribute`.
pub fn get_transition_system_component(command: &Command, attribute: &str) -> (r: Option<Term>)
    ensures
        match component(command@, attribute@) {
            Some(t) => r matches Some(x) && x@ == t,
            None => r is None,
        },
{
    if !command_has_attribute_string(command, attribute) {
        return None;
    }
    match command {
        Command::DefineFun(d) => match get_single_attribute(&d.term) {
            Some((t, _, _)) => Some(t.copy()),
            None => None,
        },
        _ => None,
    }
}

/// The last declaration of `decls` that declares `name`.
fn find_declaration_in<'a>(decls: &'a Vec<FunctionDeclaration>, name: &String) -> (r: Option<
    &'a FunctionDeclaration,
>)
    ensures
        match find_declaration(declarations_view(decls@), name@, decls@.len() as int) {
            Some(d) => r matches Some(x) && x@ == d,
            None => r is None,
        },
{
    let ghost dv = declarations_view(decls@);
    let mut i = decls.len();
    while i > 0
        invariant
            i <= decls.len(),
            dv == declarations_view(decls@),
            find_declaration(dv, name@, decls@.len() as int) == find_declaration(dv, name@, i as int),
        decreases i,
    {
        if decls[i - 1].symbol == *name {
            return Some(&decls[i - 1]);
        }
        i = i - 1;
    }
    None
}

/// A copy of the declaration of the variable whose name, without quoting bars, is
/// `variable_name`.
pub fn get_variable_command(variable_name: String, decls: &Vec<FunctionDeclaration>) -> (r: Option<
    FunctionDeclaration,
>)
    ensures
        match named_declaration(declarations_view(decls@), variable_name@) {
            Some(d) => r matches Some(x) && x@ == d,
            None => r is None,
        },
{
    let name = scrub_variable_name(variable_name);
    match find_declaration_in(decls, &name) {
        Some(d) => Some(d.copy()),
        None => None,
    }
}

/// The state variables and actions that the definitions among the first `end`
/// commands establish.
pub fn get_variables_and_actions(
    commands: &Vec<Command>,
    end: usize,
    decls: &Vec<FunctionDeclaration>,
) -> (r: Result<(Vec<Variable>, Vec<Action>), VMTError>)
    requires
        end <= commands.len(),
    ensures
        match relationships_of(commands_view(commands@), declarations_view(decls@), end as int) {
            Ok((vs, acts)) => r matches Ok((rv, ra)) && rv@.map_values(|v: Variable| v@) == vs
                && ra@.map_values(|a: Action| a@) == acts,
            Err(e) => r == Err::<(Vec<Variable>, Vec<Action>), VMTError>(e),
        },
{
    let ghost cv = commands_view(commands@);
    let ghost dv = declarations_view(decls@);
    let mut state_variables: Vec<Variable> = Vec::new();
    let mut actions: Vec<Action> = Vec::new();
    assert(state_variables@.map_values(|v: Variable| v@) =~= Seq::<VariableView>::empty());
    assert(actions@.map_values(|a: Action| a@) =~= Seq::<DeclarationView>::empty());
    for i in 0..end
        invariant
            end <= commands.len(),
            cv == commands_view(commands@),
            dv == declarations_view(decls@),
            relationships_of(cv, dv, i as int) == Ok::<(Seq<VariableView>, Seq<DeclarationView>), VMTError>(
                (state_variables@.map_values(|v: Variable| v@), actions@.map_values(|a: Action| a@)),
            ),
    {
        let ghost vs0 = state_variables@;
        let ghost as0 = actions@;
        assert(cv[i as int] == commands@[i as int]@);
        match &commands[i] {
            Command::DefineFun(d) => {
                match get_single_attribute(&d.term) {
                    None => {
                        proof {
                            lemma_error_persists(cv, dv, i + 1, end as int);
                        }
                        return Err(VMTError::MalformedRelationship);
                    },
                    Some((t, k, v)) => {
                        if has_text(k, NEXT_ATTRIBUTE) {
                            let value_text = match v {
                                Some(x) => x.text(),
                                None => String::new(),
                            };
                            let current = get_variable_command(t.text(), decls);
                            let next = get_variable_command(value_text, decls);
                            match (current, next) {
                                (Some(c), Some(x)) => {
                                    proof {
                                        lemma_terms_view(c.parameters@);
                                        lemma_terms_view(x.parameters@);
                                    }
                                    if !(c.parameters.len() == 0 && x.parameters.len() == 0 && !(c.symbol
                                        == x.symbol)) {
                                        proof {
                                            lemma_error_persists(cv, dv, i + 1, end as int);
                                        }
                                        return Err(VMTError::InvalidVariable);
                                    }
                                    state_variables.push(Variable { current: c, next: x });
                                    assert(state_variables@.map_values(|v: Variable| v@) =~= vs0.map_values(
                                        |v: Variable| v@,
                                    ).push(state_variables@.last()@));
                                },
                                _ => {
                                    proof {
                                        lemma_error_persists(cv, dv, i + 1, end as int);
                                    }
                                    return Err(VMTError::UnknownVariable);
                                },
                            }
                        } else if has_text(k, ACTION_ATTRIBUTE) {
                            match get_variable_command(t.text(), decls) {
                                Some(a) => {
                                    proof {
                                        lemma_terms_view(a.parameters@);
                                    }
                                    if a.parameters.len() != 0 {
                                        proof {
                                            lemma_error_persists(cv, dv, i + 1, end as int);
                                        }
                                        return Err(VMTError::InvalidVariable);
                                    }
                                    actions.push(Action { action_command: a });
                                    assert(actions@.map_values(|a: Action| a@) =~= as0.map_values(
                                        |a: Action| a@,
                                    ).push(actions@.last()@));
                                },
                                None => {
                                    proof {
                                        lemma_error_persists(cv, dv, i + 1, end as int);
                                    }
                                    return Err(VMTError::UnknownVariable);
                                },
                            }
                        } else {
                            proof {
                                lemma_error_persists(cv, dv, i + 1, end as int);
                            }
                            return Err(VMTError::UnsupportedAttribute);
                        }
                    },
                }
            },
            _ => {},
        }
    }
    Ok((state_variables, actions))
}

/// Once a relationship fails, the relationships of every longer prefix fail alike.
proof fn lemma_error_persists(cmds: Seq<CommandView>, decls: Seq<DeclarationView>, k: int, m: int)
    requires
        0 <= k <= m,
        relationships_of(cmds, decls, k) is Err,
    ensures
        relationships_of(cmds, decls, m) == relationships_of(cmds, decls, k),
    decreases m - k,
{
    if m > k {
        lemma_error_persists(cmds, decls, k, m - 1);
    }
}

/// Whether `name` names a state variable, in either frame, or an action.
fn is_claimed(name: &String, vars: &Vec<Variable>, acts: &Vec<Action>) -> (r: bool)
    ensures
        r == claimed(name@, vars@.map_values(|v: Variable| v@), acts@.map_values(|a: Action| a@)),
{
    let ghost vs = vars@.map_values(|v: Variable| v@);
    let ghost avs = acts@.map_values(|a: Action| a@);
    for i in 0..vars.len()
        invariant
            vs == vars@.map_values(|v: Variable| v@),
            forall|k: int|
                0 <= k < i ==> (#[trigger] vs[k]).current.symbol != name@ && vs[k].next.symbol != name@,
    {
        if vars[i].current.symbol == *name || vars[i].next.symbol == *name {
            assert(vs[i as int].current.symbol == name@ || vs[i as int].next.symbol == name@);
            return true;
        }
    }
    for i in 0..acts.len()
        invariant
            avs == acts@.map_values(|a: Action| a@),
            forall|k: int| 0 <= k < i ==> (#[trigger] avs[k]).symbol != name@,
    {
        if acts[i].action_command.symbol == *name {
            assert(avs[i as int].symbol == name@);
            return true;
        }
    }
    false
}

/// Whether some declaration without parameters names neither a state variable
/// nor an action.
fn unclaimed_declaration(decls: &Vec<FunctionDeclaration>, vars: &Vec<Variable>, acts: &Vec<Action>) -> (r: bool)
    ensures
        r == has_unclaimed_declaration(
            declarations_view(decls@),
            vars@.map_values(|v: Variable| v@),
            acts@.map_values(|a: Action| a@),
        ),
{
    let ghost dv = declarations_view(decls@);
    let ghost vs = vars@.map_values(|v: Variable| v@);
    let ghost avs = acts@.map_values(|a: Action| a@);
    for j in 0..decls.len()
        invariant
            dv == declarations_view(decls@),
            vs == vars@.map_values(|v: Variable| v@),
            avs == acts@.map_values(|a: Action| a@),
            forall|k: int|
                0 <= k < j ==> !((#[trigger] dv[k]).parameters.len() == 0 && !claimed(
                    dv[k].symbol,
                    vs,
                    avs,
                )),
    {
        proof {
            lemma_terms_view(decls@[j as int].parameters@);
        }
        if decls[j].parameters.len() == 0 && !is_claimed(&decls[j].symbol, vars, acts) {
            assert(dv[j as int].parameters.len() == 0 && !claimed(dv[j as int].symbol, vs, avs));
            return true;
        }
    }
    false
}

/// The state variables and actions that relationships establish are well formed.
proof fn lemma_relationships_wf(cmds: Seq<CommandView>, decls: Seq<DeclarationView>, n: int)
    ensures
        relationships_of(cmds, decls, n) matches Ok((vs, acts)) ==> (forall|i: int|
            0 <= i < vs.len() ==> variable_wf(#[trigger] vs[i])) && (forall|i: int|
            0 <= i < acts.len() ==> (#[trigger] acts[i]).parameters.len() == 0),
    decreases n,
{
    if n > 0 {
        lemma_relationships_wf(cmds, decls, n - 1);
        if let Ok((vs, acts)) = relationships_of(cmds, decls, n) {
            let (vs0, acts0) = relationships_of(cmds, decls, n - 1)->Ok_0;
            assert forall|i: int| 0 <= i < vs.len() implies variable_wf(#[trigger] vs[i]) by {
                if i < vs0.len() {
                    assert(vs0[i] == vs[i]);
                }
            }
            assert forall|i: int| 0 <= i < acts.len() implies (#[trigger] acts[i]).parameters.len()
                == 0 by {
                if i < acts0.len() {
                    assert(acts0[i] == acts[i]);
                }
            }
        }
    }
}

impl Variable {
    /// An independent copy of the variable.
    pub fn copy(&self) -> (r: Variable)
        ensures
            r@ == self@,
    {
        Variable { current: self.current.copy(), next: self.next.copy() }
    }
}

impl VMTModel {
    /// An independent copy of the system.
    pub fn copy(&self) -> (r: VMTModel)
        ensures
            r@ == self@,
    {
        let ghost m = self@;
        let mut sorts: Vec<SortDeclaration> = Vec::new();
        for i in 0..self.sorts.len()
            invariant
                m == self@,
                sorts@.len() == i,
                forall|j: int| 0 <= j < i ==> (#[trigger] sorts@[j])@ == m.sorts[j],
        {
            sorts.push(self.sorts[i].copy());
        }
        let mut state_variables: Vec<Variable> = Vec::new();
        for i in 0..self.state_variables.len()
            invariant
                m == self@,
                state_variables@.len() == i,
                forall|j: int| 0 <= j < i ==> (#[trigger] state_variables@[j])@ == m.variables[j],
        {
            state_variables.push(self.state_variables[i].copy());
        }
        let mut actions: Vec<Action> = Vec::new();
        for i in 0..self.actions.len()
            invariant
                m == self@,
                actions@.len() == i,
                forall|j: int| 0 <= j < i ==> (#[trigger] actions@[j])@ == m.actions[j],
        {
            actions.push(Action { action_command: self.actions[i].action_command.copy() });
        }
        let r = VMTModel {
            sorts,
            state_variables,
            actions,
            initial_condition: self.initial_condition.copy(),
            transition_condition: self.transition_condition.copy(),
            property_condition: self.property_condition.copy(),
        };
        assert(r@.sorts =~= m.sorts);
        assert(r@.variables =~= m.variables);
        assert(r@.actions =~= m.actions);
        r
    }

    pub open spec fn wf(&self) -> bool {
        model_wf(self@)
    }

    /// Extracts the transition system from a declaration sequence whose last three
    /// declarations carry the initial condition, the transition relation and the
    /// property.
    pub fn checked_from(commands: Vec<Command>) -> (r: Result<VMTModel, VMTError>)
        ensures
            match extracted(commands_view(commands@)) {
                Ok(m) => r matches Ok(x) && x@ == m && x.wf(),
                Err(e) => r == Err::<VMTModel, VMTError>(e),
            },
    {
        let n = commands.len();
        if n < 4 {
            return Err(VMTError::InsufficientDeclarations);
        }
        let ghost cv = commands_view(commands@);
        assert(cv[n - 1] == commands@[n - 1]@ && cv[n - 2] == commands@[n - 2]@ && cv[n - 3]
            == commands@[n - 3]@);
        let property = get_transition_system_component(&commands[n - 1], PROPERTY_ATTRIBUTE);
        let transition = get_transition_system_component(&commands[n - 2], TRANSITION_ATTRIBUTE);
        let initial = get_transition_system_component(&commands[n - 3], INITIAL_ATTRIBUTE);
        let (property_condition, transition_condition, initial_condition) = match (
            property,
            transition,
            initial,
        ) {
            (Some(p), Some(t), Some(i)) => (p, t, i),
            _ => {
                return Err(VMTError::IllFormedComponent);
            },
        };
        let mut sorts: Vec<SortDeclaration> = Vec::new();
        let mut decls: Vec<FunctionDeclaration> = Vec::new();
        assert(sorts@.map_values(|d: SortDeclaration| d@) =~= sorts_of(cv, 0));
        assert(declarations_view(decls@) =~= declarations_of(cv, 0));
        for i in 0..n - 3
            invariant
                n == commands.len(),
                n >= 4,
                cv == commands_view(commands@),
                component(cv[n - 1], PROPERTY_ATTRIBUTE@) is Some,
                component(cv[n - 2], TRANSITION_ATTRIBUTE@) is Some,
                component(cv[n - 3], INITIAL_ATTRIBUTE@) is Some,
                forall|j: int| 0 <= j < i ==> recognized(#[trigger] cv[j]),
                sorts@.map_values(|d: SortDeclaration| d@) == sorts_of(cv, i as int),
                declarations_view(decls@) == declarations_of(cv, i as int),
        {
            assert(cv[i as int] == commands@[i as int]@);
            match &commands[i] {
                Command::DeclareFun(d) => {
                    decls.push(d.copy());
                    assert(declarations_view(decls@) =~= declarations_of(cv, i + 1));
                },
                Command::DefineFun(_) => {},
                Command::DeclareSort(d) => {
                    sorts.push(d.copy());
                    assert(sorts@.map_values(|d: SortDeclaration| d@) =~= sorts_of(cv, i + 1));
                },
                _ => {
                    assert(0 <= i < n - 3 && !recognized(cv[i as int]));
                    return Err(VMTError::UnrecognizedDeclaration);
                },
            }
        }
        proof {
            lemma_relationships_wf(cv, declarations_of(cv, n - 3), n - 3);
        }
        let (state_variables, actions) = match get_variables_and_actions(&commands, n - 3, &decls) {
            Ok(found) => found,
            Err(e) => {
                return Err(e);
            },
        };
        if unclaimed_declaration(&decls, &state_variables, &actions) {
            return Err(VMTError::UnknownVariable);
        }
        Ok(
            VMTModel {
                sorts,
                state_variables,
                actions,
                initial_condition,
                transition_condition,
                property_condition,
            },
        )
    }
}

/// The current-frame names of a system: its state variables, then its actions.
pub open spec fn current_names(m: ModelView) -> Seq<Seq<char>> {
    m.variables.map_values(|v: VariableView| v.current.symbol) + m.actions.map_values(
        |a: DeclarationView| a.symbol,
    )
}

/// The next-frame names of a system, each with its current-frame name.
pub open spec fn next_pairs(m: ModelView) -> Seq<(Seq<char>, Seq<char>)> {
    m.variables.map_values(|v: VariableView| (v.next.symbol, v.current.symbol))
}

/// The renamer of the system `m` at `step`.
pub open spec fn renamer_at(m: ModelView, step: nat) -> RenamerView {
    RenamerView { current: current_names(m), next: next_pairs(m), step }
}

/// The time-indexed declarations of steps `0 .. n`.
pub open spec fn unrolled_definitions(m: ModelView, n: nat) -> Seq<DeclarationView>
    decreases n,
{
    if n == 0 {
        Seq::empty()
    } else {
        unrolled_definitions(m, (n - 1) as nat) + step_definitions(
            renamer_at(m, (n - 1) as nat),
            m.variables,
            m.actions,
        )
    }
}

/// The transition relation renamed at each of the steps `0 .. n`.
pub open spec fn transitions(m: ModelView, n: nat) -> Seq<TermView>
    decreases n,
{
    if n == 0 {
        Seq::empty()
    } else {
        transitions(m, (n - 1) as nat).push(rename_term(renamer_at(m, (n - 1) as nat), m.trans))
    }
}

/// The query that unrolls `m` for `k` steps.
pub open spec fn unrolled(m: ModelView, k: nat) -> ProblemView {
    ProblemView {
        sorts: m.sorts,
        definitions: unrolled_definitions(m, k + 1),
        assertions: seq![rename_term(renamer_at(m, 0), m.init)] + transitions(m, k),
        property: Some(rename_term(renamer_at(m, k), m.prop)),
    }
}

impl VMTModel {
    /// The bounded model checking query for executions of `length` steps.
    pub fn unroll(&self, length: u8) -> (r: SMTProblem)
        ensures
            r@ == unrolled(self@, length as nat),
            r@.assertions.len() == length + 1,
    {
        proof {
            lemma_unroll_counts(self@, length as nat);
        }
        let mut builder = VMTBuilder {
            current_variables: self.get_all_current_variable_names(),
            next_variables: self.get_all_next_variable_names(),
            step: 0,
        };
        let ghost m = self@;
        assert(builder@.current =~= current_names(m));
        assert(builder@.next =~= next_pairs(m));
        let mut smt_problem = SMTProblem::new(&self.sorts);
        smt_problem.add_assertion(&self.initial_condition, &builder);
        assert(smt_problem@.assertions =~= seq![rename_term(renamer_at(m, 0), m.init)] + transitions(
            m,
            0,
        ));
        assert(smt_problem@.definitions =~= unrolled_definitions(m, 0));
        for s in 0..length
            invariant
                m == self@,
                builder@ == renamer_at(m, s as nat),
                smt_problem@.sorts == m.sorts,
                smt_problem@.definitions == unrolled_definitions(m, s as nat),
                smt_problem@.assertions == seq![rename_term(renamer_at(m, 0), m.init)] + transitions(
                    m,
                    s as nat,
                ),
        {
            smt_problem.add_definitions(&self.state_variables, &self.actions, &builder);
            smt_problem.add_assertion(&self.transition_condition, &builder);
            builder.add_step();
            assert(builder@ =~= renamer_at(m, (s + 1) as nat));
            assert(smt_problem@.assertions =~= seq![rename_term(renamer_at(m, 0), m.init)]
                + transitions(m, (s + 1) as nat));
        }
        smt_problem.add_definitions(&self.state_variables, &self.actions, &builder);
        smt_problem.add_property_assertion(&self.property_condition, &builder);
        smt_problem
    }

    /// The names of the state variables, then those of the actions.
    pub fn get_all_current_variable_names(&self) -> (r: Vec<String>)
        ensures
            r@.map_values(|s: String| s@) == current_names(self@),
    {
        let ghost m = self@;
        let mut names: Vec<String> = Vec::new();
        for i in 0..self.state_variables.len()
            invariant
                m == self@,
                names@.len() == i,
                forall|j: int| 0 <= j < i ==> (#[trigger] names@[j])@ == current_names(m)[j],
        {
            names.push(self.state_variables[i].get_current_variable_name().clone());
        }
        let nv = self.state_variables.len();
        for i in 0..self.actions.len()
            invariant
                m == self@,
                nv == m.variables.len(),
                names@.len() == nv + i,
                forall|j: int| 0 <= j < nv + i ==> (#[trigger] names@[j])@ == current_names(m)[j],
        {
            names.push(self.actions[i].get_current_action_name().clone());
        }
        assert(names@.map_values(|s: String| s@) =~= current_names(m));
        names
    }

    /// Each next-frame name with the current-frame name of its state variable.
    pub fn get_all_next_variable_names(&self) -> (r: Vec<(String, String)>)
        ensures
            r@.map_values(|p: (String, String)| (p.0@, p.1@)) == next_pairs(self@),
    {
        let ghost m = self@;
        let mut pairs: Vec<(String, String)> = Vec::new();
        for i in 0..self.state_variables.len()
            invariant
                m == self@,
                pairs@.len() == i,
                forall|j: int|
                    0 <= j < i ==> ((#[trigger] pairs@[j]).0@, pairs@[j].1@) == next_pairs(m)[j],
        {
            let v = &self.state_variables[i];
            pairs.push((v.get_next_variable_name().clone(), v.get_current_variable_name().clone()));
        }
        assert(pairs@.map_values(|p: (String, String)| (p.0@, p.1@)) =~= next_pairs(m));
        pairs
    }
}

} // verus!
