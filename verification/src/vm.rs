use crate::ast::{Function, FunctionView, Identifier};
use crate::error::{outcome, CacauError, CacauResult, ErrorView};
use crate::text::push_value;
use crate::value::Value;
use vstd::hash_map::StringHashMap;
use vstd::prelude::*;
use vstd::string::StringExecFns;

verus! {

/// How deep function calls may nest in an environment made by [`Vm::new`].
pub const DEFAULT_CALL_DEPTH: usize = 1000;

/// What an execution environment holds: the value last assigned to each
/// variable, the function last declared under each name, and the text written
/// to the console so far.
pub struct VmState {
    pub variables: Map<Seq<char>, Value>,
    pub functions: Map<Seq<char>, FunctionView>,
    pub output: Seq<char>,
}

impl VmState {
    /// The environment of a run that has not begun.
    pub open spec fn empty() -> VmState {
        VmState { variables: Map::empty(), functions: Map::empty(), output: Seq::empty() }
    }

    /// The environment after `value` is assigned to the variable `name`.
    pub open spec fn assign(self, name: Seq<char>, value: Value) -> VmState {
        VmState { variables: self.variables.insert(name, value), ..self }
    }

    /// The environment after `function` is declared under `name`.
    pub open spec fn declare(self, name: Seq<char>, function: FunctionView) -> VmState {
        VmState { functions: self.functions.insert(name, function), ..self }
    }

    /// The environment after `text` is written to the console.
    pub open spec fn write(self, text: Seq<char>) -> VmState {
        VmState { output: self.output + text, ..self }
    }

    /// What reading the variable `name` gives.
    pub open spec fn variable(self, name: Seq<char>) -> Result<Value, ErrorView> {
        if self.variables.contains_key(name) {
            Ok(self.variables[name])
        } else {
            Err(ErrorView::UndefinedVariable(name))
        }
    }

    /// What looking up the function `name` gives.
    pub open spec fn function(self, name: Seq<char>) -> Result<FunctionView, ErrorView> {
        if self.functions.contains_key(name) {
            Ok(self.functions[name])
        } else {
            Err(ErrorView::UndefinedFunction(name))
        }
    }
}

/// The execution environment of one run.
pub struct Vm {
    variables: StringHashMap<Value>,
    functions: StringHashMap<Function>,
    output: String,
    depth_left: usize,
}

impl View for Vm {
    type V = VmState;

    closed spec fn view(&self) -> VmState {
        VmState {
            variables: self.variables@,
            functions: self.functions@.map_values(|function: Function| function@),
            output: self.output@,
        }
    }
}

/// A function's view, or the lookup error's view.
pub open spec fn function_outcome(result: Result<Function, CacauError>) -> Result<
    FunctionView,
    ErrorView,
> {
    match result {
        Ok(function) => Ok(function@),
        Err(error) => Err(error@),
    }
}

impl Vm {
    /// How many more function calls may nest inside the one that runs now.
    pub closed spec fn depth_left(&self) -> nat {
        self.depth_left as nat
    }

    /// An environment that holds nothing, with room for
    /// [`DEFAULT_CALL_DEPTH`] nested calls.
    pub fn new() -> (vm: Vm)
        ensures
            vm@ == VmState::empty(),
            vm.depth_left() == DEFAULT_CALL_DEPTH,
    {
        Vm::with_call_depth(DEFAULT_CALL_DEPTH)
    }

    /// An environment that holds nothing, with room for `depth` nested
    /// calls. A call inside that many others fails; every call of the
    /// language takes room on the stack of the machine, so the limit is to be
    /// chosen with the stack in mind.
    pub fn with_call_depth(depth: usize) -> (vm: Vm)
        ensures
            vm@ == VmState::empty(),
            vm.depth_left() == depth,
    {
        let vm = Vm {
            variables: StringHashMap::new(),
            functions: StringHashMap::new(),
            output: String::new(),
            depth_left: depth,
        };
        assert(vm@.functions =~= Map::empty());
        vm
    }

    /// Declares `function` under `identifier`, in place of any function
    /// declared under that name before.
    pub fn declare_function(&mut self, identifier: Identifier, function: Function)
        ensures
            final(self)@ == old(self)@.declare(identifier@, function@),
            final(self).depth_left() == old(self).depth_left(),
    {
        self.functions.insert(identifier, function);
        assert(final(self)@.functions =~= old(self)@.functions.insert(identifier@, function@));
    }

    /// A copy of the function declared under `identifier`.
    pub fn get_function(&mut self, identifier: &Identifier) -> (result: CacauResult<Function>)
        ensures
            function_outcome(result) == old(self)@.function(identifier@),
            final(self)@ == old(self)@,
            final(self).depth_left() == old(self).depth_left(),
    {
        match self.functions.get(identifier.as_str()) {
            Some(function) => Ok(function.clone()),
            None => Err(CacauError::UndefinedFunction(identifier.clone())),
        }
    }

    /// Assigns `value` to the variable `identifier`, in place of any value
    /// assigned to it before.
    pub fn assign_variable(&mut self, identifier: Identifier, value: Value)
        ensures
            final(self)@ == old(self)@.assign(identifier@, value),
            final(self).depth_left() == old(self).depth_left(),
    {
        self.variables.insert(identifier, value);
    }

    /// The value of the variable `identifier`.
    pub fn get_variable(&mut self, identifier: &Identifier) -> (result: CacauResult<Value>)
        ensures
            outcome(result) == old(self)@.variable(identifier@),
            final(self)@ == old(self)@,
            final(self).depth_left() == old(self).depth_left(),
    {
        match self.variables.get(identifier.as_str()) {
            Some(value) => Ok(*value),
            None => Err(CacauError::UndefinedVariable(identifier.clone())),
        }
    }

    /// The text written to the console so far.
    pub fn output(&self) -> (text: &str)
        ensures
            text@ == self@.output,
    {
        self.output.as_str()
    }

    /// Hands out the text written to the console so far, and forgets it.
    pub fn take_output(&mut self) -> (text: String)
        ensures
            text@ == old(self)@.output,
            final(self)@ == (VmState { output: Seq::empty(), ..old(self)@ }),
            final(self).depth_left() == old(self).depth_left(),
    {
        let mut text = String::new();
        std::mem::swap(&mut self.output, &mut text);
        text
    }

    /// Writes the text of `value` to the console.
    pub(crate) fn write_value(&mut self, value: Value)
        ensures
            final(self)@ == old(self)@.write(crate::text::value_text(value)),
            final(self).depth_left() == old(self).depth_left(),
    {
        push_value(&mut self.output, value);
    }

    /// Ends the current line of the console.
    pub(crate) fn write_line_break(&mut self)
        ensures
            final(self)@ == old(self)@.write(seq!['\n']),
            final(self).depth_left() == old(self).depth_left(),
    {
        proof {
            reveal_strlit("\n");
        }
        self.output.append("\n");
        assert("\n"@ =~= seq!['\n']);
    }

    /// Enters a function call, unless calls are nested too deep already.
    pub(crate) fn enter_call(&mut self) -> (entered: bool)
        ensures
            final(self)@ == old(self)@,
            entered == (old(self).depth_left() > 0),
            entered ==> final(self).depth_left() == old(self).depth_left() - 1,
            entered ==> final(self).depth_left() < usize::MAX,
            !entered ==> final(self).depth_left() == old(self).depth_left(),
    {
        if self.depth_left == 0 {
            false
        } else {
            self.depth_left = self.depth_left - 1;
            true
        }
    }

    /// Leaves a function call that [`enter_call`](Vm::enter_call) entered.
    pub(crate) fn leave_call(&mut self)
        requires
            old(self).depth_left() < usize::MAX,
        ensures
            final(self)@ == old(self)@,
            final(self).depth_left() == old(self).depth_left() + 1,
    {
        self.depth_left = self.depth_left + 1;
    }
}

/// Of two assignments to one variable, and of two declarations under one
/// name, only the later can be observed: the environment is the one that the
/// later alone would have made, and a lookup gives what the later bound.
pub proof fn lemma_last_write_wins(
    state: VmState,
    name: Seq<char>,
    earlier: Value,
    later: Value,
    earlier_function: FunctionView,
    later_function: FunctionView,
)
    ensures
        state.assign(name, earlier).assign(name, later) == state.assign(name, later),
        state.assign(name, earlier).assign(name, later).variable(name) == Ok::<Value, ErrorView>(
            later,
        ),
        state.declare(name, earlier_function).declare(name, later_function) == state.declare(
            name,
            later_function,
        ),
        state.declare(name, earlier_function).declare(name, later_function).function(name) == Ok::<
            FunctionView,
            ErrorView,
        >(later_function),
{
    assert(state.variables.insert(name, earlier).insert(name, later) =~= state.variables.insert(
        name,
        later,
    ));
    assert(state.functions.insert(name, earlier_function).insert(name, later_function)
        =~= state.functions.insert(name, later_function));
}

} // verus!
