//! The semantic model of a document, and its mathematical view.

use vstd::prelude::*;

verus! {

/// A typed variable declaration: an input or a struct field.
pub struct InputInfo {
    pub name: String,
    pub wdl_type: String,
    pub optional: bool,
    pub default_value: Option<String>,
}

/// An output declaration and the expression that produces it.
pub struct OutputInfo {
    pub name: String,
    pub wdl_type: String,
    pub expression: String,
}

/// A call of a task or workflow from a workflow.
pub struct CallInfo {
    pub name: String,
    pub target: String,
    pub alias: Option<String>,
    pub inputs: Vec<CallInputItem>,
}

/// One `name = expression` binding of a call's inputs.
pub struct CallInputItem {
    pub name: String,
    pub value: String,
}

/// One entry of a runtime section.
pub struct RuntimeItem {
    pub key: String,
    pub value: String,
}

/// One entry of a metadata or parameter-metadata section.
pub struct MetaItem {
    pub key: String,
    pub value: String,
}

pub struct TaskInfo {
    pub name: String,
    pub inputs: Vec<InputInfo>,
    pub outputs: Vec<OutputInfo>,
    pub command: Option<String>,
    pub runtime: Vec<RuntimeItem>,
    pub meta: Vec<MetaItem>,
    pub parameter_meta: Vec<MetaItem>,
}

pub struct WorkflowInfo {
    pub name: String,
    pub inputs: Vec<InputInfo>,
    pub outputs: Vec<OutputInfo>,
    pub calls: Vec<CallInfo>,
    pub meta: Vec<MetaItem>,
    pub parameter_meta: Vec<MetaItem>,
}

pub struct StructInfo {
    pub name: String,
    pub fields: Vec<InputInfo>,
}

pub struct ImportInfo {
    pub uri: String,
    pub alias: Option<String>,
}

/// Everything extracted from one document, each list in source order.
pub struct WdlInfo {
    pub version: Option<String>,
    pub tasks: Vec<TaskInfo>,
    pub workflows: Vec<WorkflowInfo>,
    pub structs: Vec<StructInfo>,
    pub imports: Vec<ImportInfo>,
}

pub struct DeclView {
    pub name: Seq<char>,
    pub wdl_type: Seq<char>,
    pub optional: bool,
    pub default_value: Option<Seq<char>>,
}

pub struct OutputView {
    pub name: Seq<char>,
    pub wdl_type: Seq<char>,
    pub expression: Seq<char>,
}

/// A key and the text of its value.
pub struct ItemView {
    pub key: Seq<char>,
    pub value: Seq<char>,
}

pub struct CallView {
    pub name: Seq<char>,
    pub target: Seq<char>,
    pub alias: Option<Seq<char>>,
    pub inputs: Seq<ItemView>,
}

pub struct TaskView {
    pub name: Seq<char>,
    pub inputs: Seq<DeclView>,
    pub outputs: Seq<OutputView>,
    pub command: Option<Seq<char>>,
    pub runtime: Seq<ItemView>,
    pub meta: Seq<ItemView>,
    pub parameter_meta: Seq<ItemView>,
}

pub struct WorkflowView {
    pub name: Seq<char>,
    pub inputs: Seq<DeclView>,
    pub outputs: Seq<OutputView>,
    pub calls: Seq<CallView>,
    pub meta: Seq<ItemView>,
    pub parameter_meta: Seq<ItemView>,
}

pub struct StructView {
    pub name: Seq<char>,
    pub fields: Seq<DeclView>,
}

pub struct ImportView {
    pub uri: Seq<char>,
    pub alias: Option<Seq<char>>,
}

pub struct WdlView {
    pub version: Option<Seq<char>>,
    pub tasks: Seq<TaskView>,
    pub workflows: Seq<WorkflowView>,
    pub structs: Seq<StructView>,
    pub imports: Seq<ImportView>,
}

impl View for InputInfo {
    type V = DeclView;

    open spec fn view(&self) -> DeclView {
        DeclView {
            name: self.name@,
            wdl_type: self.wdl_type@,
            optional: self.optional,
            default_value: self.default_value.deep_view(),
        }
    }
}

impl View for OutputInfo {
    type V = OutputView;

    open spec fn view(&self) -> OutputView {
        OutputView { name: self.name@, wdl_type: self.wdl_type@, expression: self.expression@ }
    }
}

impl View for CallInputItem {
    type V = ItemView;

    open spec fn view(&self) -> ItemView {
        ItemView { key: self.name@, value: self.value@ }
    }
}

impl View for RuntimeItem {
    type V = ItemView;

    open spec fn view(&self) -> ItemView {
        ItemView { key: self.key@, value: self.value@ }
    }
}

impl View for MetaItem {
    type V = ItemView;

    open spec fn view(&self) -> ItemView {
        ItemView { key: self.key@, value: self.value@ }
    }
}

pub open spec fn decl_views(v: Seq<InputInfo>) -> Seq<DeclView> {
    v.map_values(|x: InputInfo| x@)
}

pub open spec fn output_views(v: Seq<OutputInfo>) -> Seq<OutputView> {
    v.map_values(|x: OutputInfo| x@)
}

pub open spec fn call_input_views(v: Seq<CallInputItem>) -> Seq<ItemView> {
    v.map_values(|x: CallInputItem| x@)
}

pub open spec fn runtime_views(v: Seq<RuntimeItem>) -> Seq<ItemView> {
    v.map_values(|x: RuntimeItem| x@)
}

pub open spec fn meta_views(v: Seq<MetaItem>) -> Seq<ItemView> {
    v.map_values(|x: MetaItem| x@)
}

impl View for CallInfo {
    type V = CallView;

    open spec fn view(&self) -> CallView {
        CallView {
            name: self.name@,
            target: self.target@,
            alias: self.alias.deep_view(),
            inputs: call_input_views(self.inputs@),
        }
    }
}

pub open spec fn call_views(v: Seq<CallInfo>) -> Seq<CallView> {
    v.map_values(|x: CallInfo| x@)
}

impl View for TaskInfo {
    type V = TaskView;

    open spec fn view(&self) -> TaskView {
        TaskView {
            name: self.name@,
            inputs: decl_views(self.inputs@),
            outputs: output_views(self.outputs@),
            command: self.command.deep_view(),
            runtime: runtime_views(self.runtime@),
            meta: meta_views(self.meta@),
            parameter_meta: meta_views(self.parameter_meta@),
        }
    }
}

impl View for WorkflowInfo {
    type V = WorkflowView;

    open spec fn view(&self) -> WorkflowView {
        WorkflowView {
            name: self.name@,
            inputs: decl_views(self.inputs@),
            outputs: output_views(self.outputs@),
            calls: call_views(self.calls@),
            meta: meta_views(self.meta@),
            parameter_meta: meta_views(self.parameter_meta@),
        }
    }
}

impl View for StructInfo {
    type V = StructView;

    open spec fn view(&self) -> StructView {
        StructView { name: self.name@, fields: decl_views(self.fields@) }
    }
}

impl View for ImportInfo {
    type V = ImportView;

    open spec fn view(&self) -> ImportView {
        ImportView { uri: self.uri@, alias: self.alias.deep_view() }
    }
}

impl View for WdlInfo {
    type V = WdlView;

    open spec fn view(&self) -> WdlView {
        WdlView {
            version: self.version.deep_view(),
            tasks: self.tasks@.map_values(|x: TaskInfo| x@),
            workflows: self.workflows@.map_values(|x: WorkflowInfo| x@),
            structs: self.structs@.map_values(|x: StructInfo| x@),
            imports: self.imports@.map_values(|x: ImportInfo| x@),
        }
    }
}

pub open spec fn opt_view<T: View>(o: Option<T>) -> Option<T::V> {
    match o {
        Some(x) => Some(x@),
        None => None,
    }
}

pub proof fn lemma_map_push<A, B>(a: Seq<A>, x: A, f: spec_fn(A) -> B)
    ensures
        a.push(x).map_values(f) == a.map_values(f).push(f(x)),
{
    assert(a.push(x).map_values(f) =~= a.map_values(f).push(f(x)));
}

pub proof fn lemma_map_concat<A, B>(a: Seq<A>, b: Seq<A>, f: spec_fn(A) -> B)
    ensures
        (a + b).map_values(f) == a.map_values(f) + b.map_values(f),
{
    assert((a + b).map_values(f) =~= a.map_values(f) + b.map_values(f));
}

/// The model of a document in which nothing was found.
pub open spec fn empty_model() -> WdlView {
    WdlView {
        version: None,
        tasks: Seq::empty(),
        workflows: Seq::empty(),
        structs: Seq::empty(),
        imports: Seq::empty(),
    }
}

impl WdlInfo {
    pub fn new() -> (r: WdlInfo)
        ensures
            r@ == empty_model(),
    {
        let r = WdlInfo {
            version: None,
            tasks: Vec::new(),
            workflows: Vec::new(),
            structs: Vec::new(),
            imports: Vec::new(),
        };
        proof {
            assert(r@.tasks =~= Seq::<TaskView>::empty());
            assert(r@.workflows =~= Seq::<WorkflowView>::empty());
            assert(r@.structs =~= Seq::<StructView>::empty());
            assert(r@.imports =~= Seq::<ImportView>::empty());
        }
        r
    }
}

} // verus!
