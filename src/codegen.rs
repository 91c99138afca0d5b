use vstd::prelude::*;

use crate::action::{action_model, actions_model, write_action, Action, ActionModel};
use crate::ast::{find_signature, first_signature, FunctionSignature, Operation, ParserNode, SigModel};
use crate::error::{CompileError, InternalError, ParseError, ValidationError};
use crate::eval::{
    arith_action,
    lemma_actions_model_concat,
    lemma_actions_model_push,
    matches_text,
    strings_model,
    tmp_entry_of,
    EvalModel,
    EvaluationInstruction,
    EvaluationStack,
};
use crate::location::{EntryModel, LocModel, ResourceLocation, ScoreboardEntry, Separator};
use crate::lowering::{
    account_for_jumps,
    begin,
    break_flag,
    child_name,
    close_function,
    current,
    emit,
    end,
    find_function,
    first_function,
    fn_location,
    insert_ready,
    local,
    lower,
    lower_call,
    lower_child,
    lower_expr,
    lower_for,
    lower_loop_child,
    with_current,
    bootstrap,
    compile_model,
    initial,
    render_lines,
    storage_actions,
    lower_function,
    lower_if,
    lower_return,
    lower_seq,
    lower_assignment,
    lower_break,
    call_if,
    call_unless,
    open_child,
    push_instr,
    return_guard,
    tmp_of,
    FnModel,
    GenModel,
};
use crate::laws::{declares_each_once, lemma_bootstrap_declares_each_once};
use crate::text::push_unsigned;

verus! {

/// A target function under construction or completed.
#[derive(Debug)]
pub struct Function {
    pub name: String,
    pub scoreboard: ResourceLocation,
    pub actions: Vec<Action>,
    pub anonymous: bool,
    pub returns_value: bool,
    pub children: u64,
}

impl View for Function {
    type V = FnModel;

    open spec fn view(&self) -> FnModel {
        FnModel {
            name: self.name@,
            scoreboard: self.scoreboard@,
            actions: actions_model(self.actions@),
            anonymous: self.anonymous,
            returns_value: self.returns_value,
            children: self.children,
        }
    }
}

pub open spec fn fns_model(v: Seq<Function>) -> Seq<FnModel> {
    v.map_values(|f: Function| f@)
}

pub open spec fn stacks_model(v: Seq<EvaluationStack>) -> Seq<EvalModel> {
    v.map_values(|s: EvaluationStack| s@)
}

pub open spec fn sigs_model(v: Seq<FunctionSignature>) -> Seq<SigModel> {
    v.map_values(|s: FunctionSignature| s@)
}

/// No two functions share a name.
pub open spec fn unique_names(fs: Seq<FnModel>) -> bool {
    forall|i: int, j: int| 0 <= i < j < fs.len() ==> fs[i].name != fs[j].name
}

/// What a lowering step keeps: the depth of both stacks, the loop depth, the
/// namespace and distinct names among the completed functions.
pub open spec fn keeps_shape(a: GenModel, b: GenModel) -> bool {
    &&& b.unfinished.len() == a.unfinished.len()
    &&& b.stacks.len() == a.stacks.len()
    &&& b.loop_depth == a.loop_depth
    &&& b.namespace == a.namespace
    &&& unique_names(a.ready) ==> unique_names(b.ready)
    &&& preludes_kept(a) ==> preludes_kept(b)
}

/// A function that returns a value starts by clearing its return flag.
pub open spec fn starts_with_prelude(f: FnModel) -> bool {
    f.returns_value ==> f.actions.len() > 0 && f.actions[0] == ActionModel::SetVariableToNumber {
        var: EntryModel { scoreboard: f.scoreboard, player: "RETFLAG"@ },
        val: 0,
    }
}

/// Every function, under construction or completed, that returns a value
/// starts by clearing its return flag.
pub open spec fn preludes_kept(g: GenModel) -> bool {
    &&& forall|i: int| 0 <= i < g.unfinished.len() ==> starts_with_prelude(#[trigger] g.unfinished[i])
    &&& forall|i: int| 0 <= i < g.ready.len() ==> starts_with_prelude(#[trigger] g.ready[i])
}

proof fn lemma_with_current_keeps(g: GenModel, f: FnModel)
    requires
        preludes_kept(g),
        g.unfinished.len() > 0,
        starts_with_prelude(f),
    ensures
        preludes_kept(with_current(g, f)),
{
    let u = with_current(g, f).unfinished;
    assert forall|i: int| 0 <= i < u.len() implies starts_with_prelude(#[trigger] u[i]) by {
        if i < u.len() - 1 {
            assert(u[i] == g.unfinished[i]);
        }
    }
}

proof fn lemma_grow_keeps_prelude(f: FnModel, extra: Seq<ActionModel>)
    requires
        starts_with_prelude(f),
    ensures
        starts_with_prelude(FnModel { actions: f.actions + extra, ..f }),
{
    if f.returns_value {
        assert((f.actions + extra)[0] == f.actions[0]);
    }
}

proof fn lemma_insert_ready_keeps(ready: Seq<FnModel>, f: FnModel)
    requires
        forall|i: int| 0 <= i < ready.len() ==> starts_with_prelude(#[trigger] ready[i]),
        starts_with_prelude(f),
    ensures
        forall|i: int|
            0 <= i < insert_ready(ready, f).len() ==> starts_with_prelude(
                #[trigger] insert_ready(ready, f)[i],
            ),
{
    let out = insert_ready(ready, f);
    assert forall|i: int| 0 <= i < out.len() implies starts_with_prelude(#[trigger] out[i]) by {
        if i < ready.len() && out[i] != f {
            assert(out[i] == ready[i]);
        }
    }
}

pub proof fn lemma_first_function_exists(fs: Seq<FnModel>, name: Seq<char>, k: int)
    requires
        0 <= k < fs.len(),
        fs[k].name == name,
    ensures
        exists|i: int| first_function(fs, name, i),
    decreases k,
{
    if forall|j: int| 0 <= j < k ==> fs[j].name != name {
        assert(first_function(fs, name, k));
    } else {
        let j = choose|j: int| 0 <= j < k && fs[j].name != name == false;
        lemma_first_function_exists(fs, name, j);
    }
}

pub proof fn lemma_insert_ready_unique(ready: Seq<FnModel>, f: FnModel)
    requires
        unique_names(ready),
    ensures
        unique_names(insert_ready(ready, f)),
{
    match find_function(ready, f.name) {
        Some(i) => {
            assert(first_function(ready, f.name, i));
        },
        None => {
            assert forall|k: int| 0 <= k < ready.len() implies ready[k].name != f.name by {
                if ready[k].name == f.name {
                    lemma_first_function_exists(ready, f.name, k);
                }
            }
        },
    }
}

proof fn lemma_fns_push(v: Seq<Function>, f: Function)
    ensures
        fns_model(v.push(f)) == fns_model(v).push(f@),
{
    assert(fns_model(v.push(f)) =~= fns_model(v).push(f@));
}

proof fn lemma_fns_drop_last(v: Seq<Function>)
    requires
        v.len() > 0,
    ensures
        fns_model(v.drop_last()) == fns_model(v).drop_last(),
{
    assert(fns_model(v.drop_last()) =~= fns_model(v).drop_last());
}

proof fn lemma_stacks_push(v: Seq<EvaluationStack>, s: EvaluationStack)
    ensures
        stacks_model(v.push(s)) == stacks_model(v).push(s@),
{
    assert(stacks_model(v.push(s)) =~= stacks_model(v).push(s@));
}

proof fn lemma_stacks_drop_last(v: Seq<EvaluationStack>)
    requires
        v.len() > 0,
    ensures
        stacks_model(v.drop_last()) == stacks_model(v).drop_last(),
{
    assert(stacks_model(v.drop_last()) =~= stacks_model(v).drop_last());
}

/// Once a prefix of the nodes fails, the whole sequence fails the same way.
pub proof fn lemma_lower_seq_stays_failed(g: GenModel, nodes: Seq<ParserNode>, i: int)
    requires
        0 <= i <= nodes.len(),
        lower_seq(g, nodes.subrange(0, i)) is Err,
    ensures
        lower_seq(g, nodes) == lower_seq(g, nodes.subrange(0, i)),
    decreases nodes.len(),
{
    if i < nodes.len() {
        assert(nodes.subrange(0, nodes.len() - 1).subrange(0, i) =~= nodes.subrange(0, i));
        lemma_lower_seq_stays_failed(g, nodes.subrange(0, nodes.len() - 1), i);
    } else {
        assert(nodes.subrange(0, i) =~= nodes);
    }
}

/// The index of the first signature named `name`.
fn find_sig(sigs: &Vec<FunctionSignature>, name: &String) -> (r: Option<usize>)
    ensures
        match find_signature(sigs_model(sigs@), name@) {
            Some(i) => r is Some && r->0 as int == i,
            None => r is None,
        },
{
    let ghost sm = sigs_model(sigs@);
    let mut i: usize = 0;
    while i < sigs.len()
        invariant
            sm == sigs_model(sigs@),
            0 <= i <= sigs@.len(),
            forall|j: int| 0 <= j < i ==> sm[j].name != name@,
        decreases sigs@.len() - i,
    {
        if sigs[i].name == *name {
            proof {
                assert(first_signature(sm, name@, i as int));
                let k = choose|k: int| first_signature(sm, name@, k);
                assert(k == i);
            }
            return Some(i);
        }
        i = i + 1;
    }
    None
}

/// The index of the first completed function named `name`.
fn find_ready(ready: &Vec<Function>, name: &String) -> (r: Option<usize>)
    ensures
        match find_function(fns_model(ready@), name@) {
            Some(i) => r is Some && r->0 as int == i,
            None => r is None,
        },
{
    let ghost fm = fns_model(ready@);
    let mut i: usize = 0;
    while i < ready.len()
        invariant
            fm == fns_model(ready@),
            0 <= i <= ready@.len(),
            forall|j: int| 0 <= j < i ==> fm[j].name != name@,
        decreases ready@.len() - i,
    {
        if ready[i].name == *name {
            proof {
                assert(first_function(fm, name@, i as int));
                let k = choose|k: int| first_function(fm, name@, k);
                assert(k == i);
            }
            return Some(i);
        }
        i = i + 1;
    }
    None
}

/// Adds a completed function, in place of one of the same name.
fn insert_ready_fn(ready: &mut Vec<Function>, f: Function)
    ensures
        fns_model(final(ready)@) == insert_ready(fns_model(old(ready)@), f@),
{
    match find_ready(ready, &f.name) {
        Some(i) => {
            let ghost pre = ready@;
            ready.remove(i);
            ready.insert(i, f);
            assert(ready@ =~= pre.update(i as int, f));
            assert(fns_model(ready@) =~= fns_model(pre).update(i as int, f@));
        },
        None => {
            proof {
                lemma_fns_push(ready@, f);
            }
            ready.push(f);
        },
    }
}

/// The names of a signature's parameters.
fn param_names(sig: &FunctionSignature) -> (r: Vec<String>)
    ensures
        strings_model(r@) == sig@.params,
{
    let mut out: Vec<String> = Vec::new();
    let mut i: usize = 0;
    while i < sig.params.len()
        invariant
            0 <= i <= sig.params@.len(),
            strings_model(out@) == sig@.params.subrange(0, i as int),
        decreases sig.params@.len() - i,
    {
        let ghost pre = out@;
        let nm = sig.params[i].name.clone();
        assert(nm@ == sig@.params[i as int]);
        out.push(nm);
        assert(strings_model(out@) =~= strings_model(pre).push(nm@));
        assert(strings_model(out@) =~= sig@.params.subrange(0, i + 1));
        i = i + 1;
    }
    assert(sig@.params.subrange(0, i as int) =~= sig@.params);
    out
}

/// The errors reported before code generation, parser's first.
pub open spec fn reported_errors(parse: Seq<ParseError>, validation: Seq<ValidationError>) -> Seq<
    CompileError,
> {
    Seq::new(parse.len(), |i: int| CompileError::Parse(parse[i])) + Seq::new(
        validation.len(),
        |i: int| CompileError::Validate(validation[i]),
    )
}

impl Function {
    pub fn name(&self) -> (r: &String)
        ensures
            r@ == self@.name,
    {
        &self.name
    }

    pub fn is_anonymous(&self) -> (r: bool)
        ensures
            r == self@.anonymous,
    {
        self.anonymous
    }

    pub fn actions(&self) -> (r: &Vec<Action>)
        ensures
            actions_model(r@) == self@.actions,
    {
        &self.actions
    }

    /// The file text of the function: each command on a line of its own,
    /// followed by `\r\n`.
    pub fn render(&self) -> (r: String)
        ensures
            r@ == render_lines(self@.actions),
    {
        let mut out = String::new();
        let mut i: usize = 0;
        let ghost am = actions_model(self.actions@);
        assert(am.subrange(0, 0) =~= Seq::<ActionModel>::empty());
        while i < self.actions.len()
            invariant
                am == actions_model(self.actions@),
                0 <= i <= self.actions@.len(),
                out@ == render_lines(am.subrange(0, i as int)),
            decreases self.actions@.len() - i,
        {
            write_action(&mut out, &self.actions[i]);
            out.append("\r\n");
            assert(am.subrange(0, i + 1).drop_last() =~= am.subrange(0, i as int));
            assert(out@ =~= render_lines(am.subrange(0, i + 1)));
            i = i + 1;
        }
        assert(am.subrange(0, i as int) =~= am);
        out
    }
}

/// The entry function over the completed functions.
fn make_bootstrap(ready: &Vec<Function>, namespace: &String) -> (r: Function)
    ensures
        r@ == bootstrap(fns_model(ready@), namespace@),
{
    let ghost fm = fns_model(ready@);
    let mut actions: Vec<Action> = Vec::new();
    let mut i: usize = 0;
    assert(fm.subrange(0, 0) =~= Seq::<FnModel>::empty());
    assert(actions_model(actions@) =~= Seq::<ActionModel>::empty());
    while i < ready.len()
        invariant
            fm == fns_model(ready@),
            0 <= i <= ready@.len(),
            actions_model(actions@) == storage_actions(fm.subrange(0, i as int), namespace@),
        decreases ready@.len() - i,
    {
        assert(fm.subrange(0, i + 1).drop_last() =~= fm.subrange(0, i as int));
        if !ready[i].anonymous {
            let name = ResourceLocation::scoreboard(namespace.clone(), ready[i].name.clone()).to_string();
            let a = Action::CreateStorage { name };
            proof {
                lemma_actions_model_push(actions@, a);
            }
            actions.push(a);
        }
        i = i + 1;
    }
    assert(fm.subrange(0, i as int) =~= fm);
    let call = Action::CallFunction {
        target: ResourceLocation::new(namespace.clone(), String::from_str("main")),
    };
    proof {
        lemma_actions_model_push(actions@, call);
    }
    actions.push(call);
    Function {
        name: String::from_str("_sculkmain"),
        scoreboard: ResourceLocation::new(namespace.clone(), String::from_str("_sculkmain")),
        actions,
        anonymous: false,
        returns_value: false,
        children: 0,
    }
}

/// The lowering driver: walks a syntax tree once and builds target
/// functions.
pub struct CodeGenerator {
    unfinished_functions: Vec<Function>,
    ready_functions: Vec<Function>,
    func_signatures: Vec<FunctionSignature>,
    eval_stacks: Vec<EvaluationStack>,
    loop_depth: u64,
    propagate_return: bool,
    propagate_break: bool,
    namespace: String,
}

impl View for CodeGenerator {
    type V = GenModel;

    closed spec fn view(&self) -> GenModel {
        GenModel {
            unfinished: fns_model(self.unfinished_functions@),
            ready: fns_model(self.ready_functions@),
            stacks: stacks_model(self.eval_stacks@),
            sigs: sigs_model(self.func_signatures@),
            namespace: self.namespace@,
            loop_depth: self.loop_depth,
            prop_return: self.propagate_return,
            prop_break: self.propagate_break,
        }
    }
}

impl CodeGenerator {
    /// Lowers a validated syntax tree into target functions, with the entry
    /// function `_sculkmain` added. Errors of the parser or the validator
    /// stop it before any lowering; a broken invariant of the generator
    /// stops it with that one error.
    pub fn compile_src(
        ast: &ParserNode,
        parse_errors: &Vec<ParseError>,
        func_signatures: Vec<FunctionSignature>,
        validation_errors: &Vec<ValidationError>,
        namespace: &str,
    ) -> (r: Result<Self, Vec<CompileError>>)
        ensures
            parse_errors@.len() + validation_errors@.len() > 0 ==> r is Err && r->Err_0@
                == reported_errors(parse_errors@, validation_errors@),
            parse_errors@.len() + validation_errors@.len() == 0 ==> match compile_model(
                *ast,
                sigs_model(func_signatures@),
                namespace@,
            ) {
                Ok(g) => r is Ok && r->Ok_0@ == g,
                Err(e) => r is Err && r->Err_0@ == seq![CompileError::Internal(e)],
            },
            r is Ok ==> unique_names(r->Ok_0@.ready),
            r is Ok ==> declares_each_once(r->Ok_0@.ready, namespace@),
            r is Ok ==> forall|i: int|
                0 <= i < r->Ok_0@.ready.len() ==> starts_with_prelude(#[trigger] r->Ok_0@.ready[i]),
    {
        let mut errors: Vec<CompileError> = Vec::new();
        let mut i: usize = 0;
        while i < parse_errors.len()
            invariant
                0 <= i <= parse_errors@.len(),
                errors@ == Seq::new(i as nat, |k: int| CompileError::Parse(parse_errors@[k])),
            decreases parse_errors@.len() - i,
        {
            errors.push(CompileError::Parse(parse_errors[i].duplicate()));
            assert(errors@ =~= Seq::new((i + 1) as nat, |k: int| CompileError::Parse(parse_errors@[k])));
            i = i + 1;
        }
        let ghost parsed = errors@;
        let mut j: usize = 0;
        while j < validation_errors.len()
            invariant
                0 <= j <= validation_errors@.len(),
                errors@ == parsed + Seq::new(
                    j as nat,
                    |k: int| CompileError::Validate(validation_errors@[k]),
                ),
            decreases validation_errors@.len() - j,
        {
            errors.push(CompileError::Validate(validation_errors[j].duplicate()));
            assert(errors@ =~= parsed + Seq::new(
                (j + 1) as nat,
                |k: int| CompileError::Validate(validation_errors@[k]),
            ));
            j = j + 1;
        }
        if errors.len() > 0 {
            assert(errors@ =~= reported_errors(parse_errors@, validation_errors@));
            return Err(errors);
        }
        let mut gen = CodeGenerator {
            unfinished_functions: Vec::new(),
            ready_functions: Vec::new(),
            func_signatures,
            eval_stacks: Vec::new(),
            loop_depth: 0,
            propagate_return: false,
            propagate_break: false,
            namespace: String::from_str(namespace),
        };
        assert(gen@ =~= initial(sigs_model(func_signatures@), namespace@)) by {
            assert(fns_model(gen.unfinished_functions@) =~= Seq::<FnModel>::empty());
            assert(fns_model(gen.ready_functions@) =~= Seq::<FnModel>::empty());
            assert(stacks_model(gen.eval_stacks@) =~= Seq::<EvalModel>::empty());
        }
        match gen.visit_node(ast) {
            Err(e) => {
                let mut errs: Vec<CompileError> = Vec::new();
                errs.push(CompileError::Internal(e));
                assert(errs@ =~= seq![CompileError::Internal(e)]);
                return Err(errs);
            },
            Ok(()) => {},
        }
        let main = make_bootstrap(&gen.ready_functions, &gen.namespace);
        let ghost before = gen@;
        proof {
            lemma_insert_ready_unique(before.ready, main@);
            lemma_bootstrap_declares_each_once(before.ready, namespace@);
            lemma_insert_ready_keeps(before.ready, main@);
        }
        insert_ready_fn(&mut gen.ready_functions, main);
        Ok(gen)
    }

    /// The completed functions, the entry function among them.
    pub fn ready_functions(&self) -> (r: &Vec<Function>)
        ensures
            fns_model(r@) == self@.ready,
    {
        &self.ready_functions
    }

    /// The completed function named `name`, if any.
    pub fn ready_function(&self, name: &String) -> (r: Option<&Function>)
        ensures
            match find_function(self@.ready, name@) {
                Some(i) => r is Some && r->0@ == self@.ready[i],
                None => r is None,
            },
    {
        match find_ready(&self.ready_functions, name) {
            Some(i) => Some(&self.ready_functions[i]),
            None => None,
        }
    }

    fn pop_current(&mut self) -> (f: Function)
        requires
            old(self)@.unfinished.len() > 0,
        ensures
            f@ == current(old(self)@),
            final(self)@ == (GenModel {
                unfinished: old(self)@.unfinished.drop_last(),
                ..old(self)@
            }),
    {
        proof {
            lemma_fns_drop_last(self.unfinished_functions@);
        }
        self.unfinished_functions.pop().unwrap()
    }

    fn push_current(&mut self, f: Function)
        ensures
            final(self)@ == (GenModel { unfinished: old(self)@.unfinished.push(f@), ..old(self)@ }),
    {
        proof {
            lemma_fns_push(self.unfinished_functions@, f);
        }
        self.unfinished_functions.push(f);
    }

    fn emit_action(&mut self, a: Action)
        requires
            old(self)@.unfinished.len() > 0,
        ensures
            final(self)@ == emit(old(self)@, a@),
            preludes_kept(old(self)@) ==> preludes_kept(final(self)@),
    {
        let ghost g = self@;
        let mut f = self.pop_current();
        proof {
            lemma_actions_model_push(f.actions@, a);
        }
        f.actions.push(a);
        self.push_current(f);
        proof {
            if preludes_kept(g) {
                let c = current(g);
                assert(starts_with_prelude(c));
                assert(c.actions.push(a@) == c.actions + seq![a@]);
                lemma_grow_keeps_prelude(c, seq![a@]);
                lemma_with_current_keeps(g, FnModel { actions: c.actions.push(a@), ..c });
            }
        }
    }

    fn active_scoreboard(&self) -> (r: ResourceLocation)
        requires
            self@.unfinished.len() > 0,
        ensures
            r@ == current(self@).scoreboard,
    {
        self.unfinished_functions[self.unfinished_functions.len() - 1].scoreboard.duplicate()
    }

    /// The register `name` of the current function's namespace.
    fn local_variable(&self, name: &str) -> (r: ScoreboardEntry)
        requires
            self@.unfinished.len() > 0,
        ensures
            r@ == local(self@, name@),
    {
        ScoreboardEntry::new(self.active_scoreboard(), String::from_str(name))
    }

    fn get_tmp(&self, num: u64) -> (r: ScoreboardEntry)
        requires
            self@.unfinished.len() > 0,
        ensures
            r@ == tmp_of(self@, num),
    {
        let sb = self.active_scoreboard();
        tmp_entry_of(&sb, num)
    }

    fn current_break_flag(&self) -> (r: ScoreboardEntry)
        requires
            self@.unfinished.len() > 0,
        ensures
            r@ == break_flag(self@),
    {
        let mut name = String::from_str("BREAKFLAG");
        push_unsigned(&mut name, self.loop_depth);
        ScoreboardEntry::new(self.active_scoreboard(), name)
    }

    fn resource_location(&self, path: &String) -> (r: ResourceLocation)
        ensures
            r@ == fn_location(self@, path@),
    {
        ResourceLocation::new(self.namespace.clone(), path.clone())
    }

    fn scoreboard(&self, name: &String) -> (r: ResourceLocation)
        ensures
            r@ == (LocModel {
                namespace: self@.namespace,
                path: name@,
                separator: Separator::Dot,
            }),
    {
        ResourceLocation::scoreboard(self.namespace.clone(), name.clone())
    }

    fn emit_return_guard(&mut self, flag: ScoreboardEntry)
        requires
            old(self)@.unfinished.len() > 0,
        ensures
            final(self)@ == emit(old(self)@, return_guard(flag@)),
            preludes_kept(old(self)@) ==> preludes_kept(final(self)@),
    {
        let condition = matches_text(&flag, "1");
        let a = Action::ExecuteIf { condition, then: Box::new(Action::Return) };
        proof {
            reveal_with_fuel(action_model, 2);
        }
        self.emit_action(a);
    }

    fn account_for_jumps(&mut self)
        requires
            old(self)@.unfinished.len() > 0,
        ensures
            final(self)@ == account_for_jumps(old(self)@),
            preludes_kept(old(self)@) ==> preludes_kept(final(self)@),
    {
        if self.propagate_return {
            let flag = self.local_variable("RETFLAG");
            self.emit_return_guard(flag);
        }
        if self.propagate_break {
            let flag = self.current_break_flag();
            self.emit_return_guard(flag);
        }
    }

    fn begin_evaluation(&mut self)
        requires
            old(self)@.unfinished.len() > 0,
        ensures
            final(self)@ == begin(old(self)@),
            preludes_kept(old(self)@) ==> preludes_kept(final(self)@),
    {
        let stack = EvaluationStack::new(self.active_scoreboard(), 0);
        proof {
            lemma_stacks_push(self.eval_stacks@, stack);
        }
        self.eval_stacks.push(stack);
        assert(self@.unfinished == old(self)@.unfinished);
        assert(self@.ready == old(self)@.ready);
    }

    fn push_eval_instr(&mut self, instr: EvaluationInstruction) -> (r: Result<(), InternalError>)
        ensures
            match push_instr(old(self)@, instr@) {
                Ok(g) => r is Ok && final(self)@ == g,
                Err(e) => r == Err::<(), InternalError>(e),
            },
            r is Ok ==> (preludes_kept(old(self)@) ==> preludes_kept(final(self)@)),
    {
        if self.eval_stacks.len() == 0 {
            return Err(InternalError::NoOpenExpression);
        }
        proof {
            lemma_stacks_drop_last(self.eval_stacks@);
        }
        let mut top = self.eval_stacks.pop().unwrap();
        top.push_instruction(instr);
        proof {
            lemma_stacks_push(self.eval_stacks@, top);
        }
        self.eval_stacks.push(top);
        Ok(())
    }

    fn end_current_evaluation(&mut self) -> (r: Result<u64, InternalError>)
        requires
            old(self)@.unfinished.len() > 0,
        ensures
            match end(old(self)@) {
                Ok((g, t)) => r == Ok::<u64, InternalError>(t) && final(self)@ == g,
                Err(e) => r == Err::<u64, InternalError>(e),
            },
            r is Ok ==> (preludes_kept(old(self)@) ==> preludes_kept(final(self)@)),
    {
        if self.eval_stacks.len() == 0 {
            return Err(InternalError::NoOpenExpression);
        }
        proof {
            lemma_stacks_drop_last(self.eval_stacks@);
        }
        let top = self.eval_stacks.pop().unwrap();
        match top.flush() {
            Err(e) => Err(e),
            Ok((flushed, t)) => {
                let EvaluationStack { mut actions, .. } = flushed;
                let ghost g = self@;
                let mut f = self.pop_current();
                proof {
                    lemma_actions_model_concat(f.actions@, actions@);
                }
                let ghost extra = actions_model(actions@);
                f.actions.append(&mut actions);
                self.push_current(f);
                proof {
                    if preludes_kept(g) {
                        let c = current(g);
                        assert(starts_with_prelude(c));
                        lemma_grow_keeps_prelude(c, extra);
                        lemma_with_current_keeps(g, FnModel { actions: c.actions + extra, ..c });
                    }
                }
                Ok(t)
            },
        }
    }

    fn open_child(&mut self) -> (r: Result<String, InternalError>)
        requires
            old(self)@.unfinished.len() > 0,
        ensures
            match open_child(old(self)@) {
                Ok(g) => r is Ok && r->Ok_0@ == child_name(current(old(self)@)) && final(self)@
                    == g,
                Err(e) => r is Err && r->Err_0 == e,
            },
            r is Ok ==> (preludes_kept(old(self)@) ==> preludes_kept(final(self)@)),
    {
        let ghost g = self@;
        let mut parent = self.pop_current();
        if parent.children == u64::MAX {
            return Err(InternalError::CounterOverflow);
        }
        let mut name = parent.name.clone();
        name.append("/");
        push_unsigned(&mut name, parent.children);
        proof {
            reveal_strlit("/");
        }
        let child = Function {
            name: name.clone(),
            scoreboard: parent.scoreboard.duplicate(),
            actions: Vec::new(),
            anonymous: true,
            returns_value: false,
            children: 0,
        };
        assert(child@.actions =~= Seq::<ActionModel>::empty());
        assert(child@.name =~= child_name(current(old(self)@)));
        parent.children = parent.children + 1;
        self.push_current(parent);
        proof {
            if preludes_kept(g) {
                assert(starts_with_prelude(current(g)));
                lemma_with_current_keeps(g, parent@);
            }
        }
        self.push_current(child);
        Ok(name)
    }

    fn close_function(&mut self)
        requires
            old(self)@.unfinished.len() > 0,
        ensures
            final(self)@ == close_function(old(self)@),
            preludes_kept(old(self)@) ==> preludes_kept(final(self)@),
    {
        let ghost g = self@;
        let f = self.pop_current();
        insert_ready_fn(&mut self.ready_functions, f);
        proof {
            if preludes_kept(g) {
                assert(starts_with_prelude(current(g)));
                lemma_insert_ready_keeps(g.ready, current(g));
                let u = g.unfinished.drop_last();
                assert forall|i: int| 0 <= i < u.len() implies starts_with_prelude(#[trigger] u[i]) by {
                    assert(u[i] == g.unfinished[i]);
                }
            }
        }
    }
    /// Lowers the nodes in order.
    fn visit_seq(&mut self, nodes: &Vec<ParserNode>) -> (r: Result<(), InternalError>)
        ensures
            match lower_seq(old(self)@, nodes@) {
                Ok(g) => r is Ok && final(self)@ == g,
                Err(e) => r == Err::<(), InternalError>(e),
            },
            r is Ok ==> keeps_shape(old(self)@, final(self)@),
        decreases nodes@, 0int,
    {
        let ghost g0 = self@;
        let n = nodes.len();
        let mut i: usize = 0;
        assert(nodes@.subrange(0, 0) =~= Seq::<ParserNode>::empty());
        while i < n
            invariant
                n == nodes@.len(),
                0 <= i <= n,
                g0 == old(self)@,
                lower_seq(g0, nodes@.subrange(0, i as int)) == Ok::<GenModel, InternalError>(
                    self@,
                ),
                keeps_shape(g0, self@),
            decreases n - i,
        {
            let ghost before = self@;
            let r = self.visit_node(&nodes[i]);
            assert(nodes@.subrange(0, i + 1).subrange(0, i as int) =~= nodes@.subrange(
                0,
                i as int,
            ));
            assert(lower_seq(g0, nodes@.subrange(0, i + 1)) == lower(before, nodes@[i as int]));
            match r {
                Err(e) => {
                    proof {
                        lemma_lower_seq_stays_failed(g0, nodes@, i + 1);
                    }
                    return Err(e);
                },
                Ok(()) => {},
            }
            i = i + 1;
        }
        assert(nodes@.subrange(0, n as int) =~= nodes@);
        Ok(())
    }

    /// Lowers an expression in a fresh expression context and returns the
    /// temporary that holds its value.
    fn visit_expr(&mut self, expr: &ParserNode) -> (r: Result<u64, InternalError>)
        requires
            old(self)@.unfinished.len() > 0,
        ensures
            match lower_expr(old(self)@, *expr) {
                Ok((g, t)) => r == Ok::<u64, InternalError>(t) && final(self)@ == g,
                Err(e) => r == Err::<u64, InternalError>(e),
            },
            r is Ok ==> keeps_shape(old(self)@, final(self)@),
        decreases *expr, 4int,
    {
        self.begin_evaluation();
        match self.visit_node(expr) {
            Err(e) => {
                return Err(e);
            },
            Ok(()) => {},
        }
        self.end_current_evaluation()
    }

    /// `x = e`, and `x op= e` where `op` is given.
    fn visit_assignment(&mut self, name: &String, expr: &ParserNode, op: Option<Operation>) -> (r:
        Result<(), InternalError>)
        ensures
            match lower_assignment(old(self)@, name@, *expr, op) {
                Ok(g) => r is Ok && final(self)@ == g,
                Err(e) => r == Err::<(), InternalError>(e),
            },
            r is Ok ==> keeps_shape(old(self)@, final(self)@),
        decreases *expr, 5int,
    {
        if self.unfinished_functions.len() == 0 {
            return Err(InternalError::NoCurrentFunction);
        }
        let t = match self.visit_expr(expr) {
            Ok(t) => t,
            Err(e) => {
                return Err(e);
            },
        };
        let var = self.local_variable(name.as_str());
        let tmp = self.get_tmp(t);
        match op {
            None => {
                self.emit_action(Action::SetVariableToVariable { first: var, second: tmp });
                Ok(())
            },
            Some(op) => match arith_action(op, var, tmp) {
                Some(a) => {
                    self.emit_action(a);
                    Ok(())
                },
                None => Err(InternalError::UnsupportedOperation),
            },
        }
    }

    /// A user function declaration.
    fn visit_function_declaration(&mut self, name: &String, body: &ParserNode) -> (r: Result<
        (),
        InternalError,
    >)
        ensures
            match lower_function(old(self)@, name@, *body) {
                Ok(g) => r is Ok && final(self)@ == g,
                Err(e) => r == Err::<(), InternalError>(e),
            },
            r is Ok ==> keeps_shape(old(self)@, final(self)@),
        decreases *body, 4int,
    {
        let i = match find_sig(&self.func_signatures, name) {
            Some(i) => i,
            None => {
                return Err(InternalError::UnknownFunction);
            },
        };
        let returns_value = self.func_signatures[i].returns_value;
        let ghost g = old(self)@;
        assert(g.sigs[i as int].returns_value == returns_value);
        let f = Function {
            name: name.clone(),
            scoreboard: self.scoreboard(name),
            actions: Vec::new(),
            anonymous: false,
            returns_value,
            children: 0,
        };
        assert(f@.actions =~= Seq::<ActionModel>::empty());
        self.push_current(f);
        if returns_value {
            let var = self.local_variable("RETFLAG");
            self.emit_action(Action::SetVariableToNumber { var, val: 0 });
        }
        proof {
            if preludes_kept(g) {
                let u = self@.unfinished;
                assert forall|k: int| 0 <= k < u.len() implies starts_with_prelude(#[trigger] u[k]) by {
                    if k < u.len() - 1 {
                        assert(u[k] == g.unfinished[k]);
                    } else {
                        reveal_with_fuel(action_model, 2);
                    }
                }
            }
        }
        match self.visit_node(body) {
            Err(e) => {
                return Err(e);
            },
            Ok(()) => {},
        }
        let ghost before = self@;
        self.close_function();
        proof {
            if unique_names(before.ready) {
                lemma_insert_ready_unique(before.ready, current(before));
            }
        }
        self.propagate_return = false;
        self.propagate_break = false;
        Ok(())
    }

    /// A call; in statement position it gets an expression context of its
    /// own.
    fn visit_function_call(&mut self, name: &String, args: &Vec<ParserNode>) -> (r: Result<
        (),
        InternalError,
    >)
        ensures
            match lower_call(old(self)@, name@, args@) {
                Ok(g) => r is Ok && final(self)@ == g,
                Err(e) => r == Err::<(), InternalError>(e),
            },
            r is Ok ==> keeps_shape(old(self)@, final(self)@),
        decreases args@, 1int,
    {
        let opened = self.eval_stacks.len() == 0;
        if opened && self.unfinished_functions.len() == 0 {
            return Err(InternalError::NoCurrentFunction);
        }
        if opened {
            self.begin_evaluation();
        }
        match self.visit_seq(args) {
            Err(e) => {
                return Err(e);
            },
            Ok(()) => {},
        }
        let i = match find_sig(&self.func_signatures, name) {
            Some(i) => i,
            None => {
                return Err(InternalError::UnknownFunction);
            },
        };
        let target = self.resource_location(name);
        let params = param_names(&self.func_signatures[i]);
        assert(self@.sigs[i as int].params == strings_model(params@));
        match self.push_eval_instr(EvaluationInstruction::CallFunction(target, params)) {
            Err(e) => {
                return Err(e);
            },
            Ok(()) => {},
        }
        if opened {
            match self.end_current_evaluation() {
                Err(e) => {
                    return Err(e);
                },
                Ok(_t) => {},
            }
        }
        Ok(())
    }

    /// `return e;` and `return;`.
    fn visit_return(&mut self, expr: &Option<Box<ParserNode>>) -> (r: Result<(), InternalError>)
        ensures
            match lower_return(old(self)@, *expr) {
                Ok(g) => r is Ok && final(self)@ == g,
                Err(e) => r == Err::<(), InternalError>(e),
            },
            r is Ok ==> keeps_shape(old(self)@, final(self)@),
        decreases *expr, 5int,
    {
        if self.unfinished_functions.len() == 0 {
            return Err(InternalError::NoCurrentFunction);
        }
        match expr {
            Some(e) => {
                let t = match self.visit_expr(e) {
                    Ok(t) => t,
                    Err(err) => {
                        return Err(err);
                    },
                };
                let ret = self.local_variable("RET");
                let tmp = self.get_tmp(t);
                self.emit_action(Action::SetVariableToVariable { first: ret, second: tmp });
            },
            None => {},
        }
        let flag = self.local_variable("RETFLAG");
        self.emit_action(Action::SetVariableToNumber { var: flag, val: 1 });
        self.emit_action(Action::Return);
        self.propagate_return = true;
        Ok(())
    }

    /// Lowers `body` into a fresh anonymous child and returns its name.
    fn visit_child(&mut self, body: &ParserNode) -> (r: Result<String, InternalError>)
        requires
            old(self)@.unfinished.len() > 0,
        ensures
            match lower_child(old(self)@, *body) {
                Ok((g, name)) => r is Ok && r->Ok_0@ == name && final(self)@ == g,
                Err(e) => r is Err && r->Err_0 == e,
            },
            r is Ok ==> keeps_shape(old(self)@, final(self)@),
        decreases *body, 4int,
    {
        let name = match self.open_child() {
            Ok(name) => name,
            Err(e) => {
                return Err(e);
            },
        };
        match self.visit_node(body) {
            Err(e) => {
                return Err(e);
            },
            Ok(()) => {},
        }
        let ghost before = self@;
        self.close_function();
        proof {
            if unique_names(before.ready) {
                lemma_insert_ready_unique(before.ready, current(before));
            }
        }
        Ok(name)
    }

    /// `execute if|unless score <flag> matches 1 run function <target>`.
    fn emit_guarded_call(&mut self, flag: &ScoreboardEntry, target: ResourceLocation, unless: bool)
        requires
            old(self)@.unfinished.len() > 0,
        ensures
            final(self)@ == emit(
                old(self)@,
                if unless {
                    call_unless(flag@, target@)
                } else {
                    call_if(flag@, target@)
                },
            ),
            preludes_kept(old(self)@) ==> preludes_kept(final(self)@),
    {
        let condition = matches_text(flag, "1");
        let then = Box::new(Action::CallFunction { target });
        let a = if unless {
            Action::ExecuteUnless { condition, then }
        } else {
            Action::ExecuteIf { condition, then }
        };
        proof {
            reveal_with_fuel(action_model, 2);
        }
        self.emit_action(a);
    }

    /// `if (c) a else b`.
    #[verifier::rlimit(40)]
    fn visit_if(&mut self, node: &ParserNode) -> (r: Result<(), InternalError>)
        ensures
            match lower_if(old(self)@, *node) {
                Ok(g) => r is Ok && final(self)@ == g,
                Err(e) => r == Err::<(), InternalError>(e),
            },
            r is Ok ==> keeps_shape(old(self)@, final(self)@),
        decreases *node, 2int,
    {
        match node {
            ParserNode::If { cond, body, else_body } => {
                if self.unfinished_functions.len() == 0 {
                    return Err(InternalError::NoCurrentFunction);
                }
                let t = match self.visit_expr(cond) {
                    Ok(t) => t,
                    Err(e) => {
                        return Err(e);
                    },
                };
                let then_name = match self.visit_child(body) {
                    Ok(name) => name,
                    Err(e) => {
                        return Err(e);
                    },
                };
                let flag = self.get_tmp(t);
                let target = self.resource_location(&then_name);
                self.emit_guarded_call(&flag, target, false);
                self.account_for_jumps();
                match else_body {
                    None => Ok(()),
                    Some(eb) => {
                        let else_name = match self.visit_child(eb) {
                            Ok(name) => name,
                            Err(e) => {
                                return Err(e);
                            },
                        };
                        let target = self.resource_location(&else_name);
                        self.emit_guarded_call(&flag, target, true);
                        self.account_for_jumps();
                        Ok(())
                    },
                }
            },
            _ => Ok(()),
        }
    }

    /// The anonymous child that holds a loop; returns its name.
    fn visit_loop_child(&mut self, node: &ParserNode) -> (r: Result<String, InternalError>)
        requires
            old(self)@.unfinished.len() > 0,
            *node is For,
        ensures
            match lower_loop_child(old(self)@, *node) {
                Ok((g, name)) => r is Ok && r->Ok_0@ == name && final(self)@ == g,
                Err(e) => r is Err && r->Err_0 == e,
            },
            r is Ok ==> keeps_shape(old(self)@, final(self)@),
        decreases *node, 1int,
    {
        match node {
            ParserNode::For { init: _, cond, step, body } => {
                let name = match self.open_child() {
                    Ok(name) => name,
                    Err(e) => {
                        return Err(e);
                    },
                };
                match self.visit_node(body) {
                    Err(e) => {
                        return Err(e);
                    },
                    Ok(()) => {},
                }
                match self.visit_node(step) {
                    Err(e) => {
                        return Err(e);
                    },
                    Ok(()) => {},
                }
                let t = match self.visit_expr(cond) {
                    Ok(t) => t,
                    Err(e) => {
                        return Err(e);
                    },
                };
                let flag = self.get_tmp(t);
                let target = self.resource_location(&name);
                self.emit_guarded_call(&flag, target, false);
                let ghost before = self@;
                self.close_function();
                proof {
                    if unique_names(before.ready) {
                        lemma_insert_ready_unique(before.ready, current(before));
                    }
                }
                Ok(name)
            },
            _ => Err(InternalError::MalformedExpression),
        }
    }

    /// `for (init; cond; step) body`.
    fn visit_for(&mut self, node: &ParserNode) -> (r: Result<(), InternalError>)
        ensures
            match lower_for(old(self)@, *node) {
                Ok(g) => r is Ok && final(self)@ == g,
                Err(e) => r == Err::<(), InternalError>(e),
            },
            r is Ok ==> keeps_shape(old(self)@, final(self)@),
        decreases *node, 2int,
    {
        match node {
            ParserNode::For { init, cond, step: _, body: _ } => {
                if self.unfinished_functions.len() == 0 {
                    return Err(InternalError::NoCurrentFunction);
                }
                if self.loop_depth == u64::MAX {
                    return Err(InternalError::CounterOverflow);
                }
                self.loop_depth = self.loop_depth + 1;
                match self.visit_node(init) {
                    Err(e) => {
                        return Err(e);
                    },
                    Ok(()) => {},
                }
                let name = match self.visit_loop_child(node) {
                    Ok(name) => name,
                    Err(e) => {
                        return Err(e);
                    },
                };
                let t = match self.visit_expr(cond) {
                    Ok(t) => t,
                    Err(e) => {
                        return Err(e);
                    },
                };
                let flag = self.get_tmp(t);
                let target = self.resource_location(&name);
                self.emit_guarded_call(&flag, target, false);
                self.propagate_break = false;
                self.account_for_jumps();
                self.loop_depth = self.loop_depth - 1;
                Ok(())
            },
            _ => Ok(()),
        }
    }

    /// `break;`.
    fn visit_break(&mut self) -> (r: Result<(), InternalError>)
        ensures
            match lower_break(old(self)@) {
                Ok(g) => r is Ok && final(self)@ == g,
                Err(e) => r == Err::<(), InternalError>(e),
            },
            r is Ok ==> keeps_shape(old(self)@, final(self)@),
    {
        if self.unfinished_functions.len() == 0 {
            return Err(InternalError::NoCurrentFunction);
        }
        let flag = self.current_break_flag();
        self.emit_action(Action::SetVariableToNumber { var: flag, val: 1 });
        self.emit_action(Action::Return);
        self.propagate_break = true;
        Ok(())
    }

    /// Lowers one node.
    fn visit_node(&mut self, node: &ParserNode) -> (r: Result<(), InternalError>)
        ensures
            match lower(old(self)@, *node) {
                Ok(g) => r is Ok && final(self)@ == g,
                Err(e) => r == Err::<(), InternalError>(e),
            },
            r is Ok ==> keeps_shape(old(self)@, final(self)@),
        decreases *node, 3int,
    {
        match node {
            ParserNode::NumberLiteral(n) => self.push_eval_instr(
                EvaluationInstruction::PushNumber(*n),
            ),
            ParserNode::BoolLiteral(b) => self.push_eval_instr(EvaluationInstruction::PushBool(*b)),
            ParserNode::Identifier(x) => {
                if self.unfinished_functions.len() == 0 {
                    return Err(InternalError::NoCurrentFunction);
                }
                let v = self.local_variable(x.as_str());
                self.push_eval_instr(EvaluationInstruction::PushVariable(v))
            },
            ParserNode::Operation(lhs, rhs, op) => {
                match self.visit_node(lhs) {
                    Err(e) => {
                        return Err(e);
                    },
                    Ok(()) => {},
                }
                match self.visit_node(rhs) {
                    Err(e) => {
                        return Err(e);
                    },
                    Ok(()) => {},
                }
                self.push_eval_instr(EvaluationInstruction::Operation(*op))
            },
            ParserNode::OpEquals { name, expr, op } => self.visit_assignment(name, expr, Some(*op)),
            ParserNode::VariableDeclaration { name, expr } => self.visit_assignment(
                name,
                expr,
                None,
            ),
            ParserNode::VariableAssignment { name, expr } => self.visit_assignment(
                name,
                expr,
                None,
            ),
            ParserNode::Program(nodes) => self.visit_seq(nodes),
            ParserNode::Block(nodes) => self.visit_seq(nodes),
            ParserNode::FunctionDeclaration { name, args: _, body } => self.visit_function_declaration(
                name,
                body,
            ),
            ParserNode::FunctionCall { name, args } => self.visit_function_call(name, args),
            ParserNode::Return(expr) => self.visit_return(expr),
            ParserNode::TypedIdentifier { .. } => Ok(()),
            ParserNode::StructDefinition { .. } => Ok(()),
            ParserNode::Unary(expr, op) => match op {
                Operation::Negate => {
                    match self.visit_node(expr) {
                        Err(e) => {
                            return Err(e);
                        },
                        Ok(()) => {},
                    }
                    match self.push_eval_instr(EvaluationInstruction::PushNumber(-1)) {
                        Err(e) => {
                            return Err(e);
                        },
                        Ok(()) => {},
                    }
                    self.push_eval_instr(EvaluationInstruction::Operation(Operation::Multiply))
                },
                Operation::Not => {
                    match self.push_eval_instr(EvaluationInstruction::PushNumber(1)) {
                        Err(e) => {
                            return Err(e);
                        },
                        Ok(()) => {},
                    }
                    match self.visit_node(expr) {
                        Err(e) => {
                            return Err(e);
                        },
                        Ok(()) => {},
                    }
                    self.push_eval_instr(EvaluationInstruction::Operation(Operation::Subtract))
                },
                _ => Err(InternalError::UnsupportedOperation),
            },
            ParserNode::If { .. } => self.visit_if(node),
            ParserNode::For { .. } => self.visit_for(node),
            ParserNode::Break => self.visit_break(),
            ParserNode::CommandLiteral(command) => {
                if self.unfinished_functions.len() == 0 {
                    return Err(InternalError::NoCurrentFunction);
                }
                self.emit_action(Action::Direct { command: command.clone() });
                Ok(())
            },
        }
    }
}

} // verus!
