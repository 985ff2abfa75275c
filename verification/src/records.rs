//! The specification records: plain structured entities describing the
//! protocol specification document — domains, constants, classes, methods,
//! arguments and properties — together with the well-formedness conditions
//! that a loaded protocol definition satisfies.
//!
//! The `metadata` slots carry free-form generator hints and are opaque to the
//! model; everything else is plain values.

use vstd::prelude::*;

use crate::document::JsonModel;
use crate::json::content_of;
use crate::types::AMQPType;

verus! {

/// Structure holding the definition of the protocol
#[derive(Clone, Debug, PartialEq)]
pub struct AMQProtocolDefinition {
    /// The name of the protocol
    pub name: String,
    /// The major protocol version
    pub major_version: u8,
    /// The minor protocol version
    pub minor_version: u8,
    /// The revision of the protocol version
    pub revision: u8,
    /// The default port of the protocol
    pub port: u32,
    /// The copyright holder of the protocol specification
    pub copyright: String,
    /// The domains defined by the protocol specification, names unique
    pub domains: Vec<AMQPDomain>,
    /// The constants defined by the protocol specification
    pub constants: Vec<AMQPConstant>,
    /// The soft errors defined by the protocol specification
    pub soft_errors: Vec<AMQPConstant>,
    /// The hard errors defined by the protocol specification
    pub hard_errors: Vec<AMQPConstant>,
    /// The classes defined by the protocol specification
    pub classes: Vec<AMQPClass>,
}

/// A domain: a named alias for a primitive type, used by the specification
/// document to reduce repetition.
#[derive(Clone, Debug, PartialEq)]
pub struct AMQPDomain {
    /// The name of the domain
    pub name: String,
    /// The primitive type the domain aliases
    pub amqp_type: AMQPType,
}

/// A constant as defined in the AMQP specification
#[derive(Clone, Debug, PartialEq)]
pub struct AMQPConstant {
    /// The name of the constant
    pub name: String,
    /// The value of the constant
    pub value: u16,
    /// The type of the constant
    pub amqp_type: AMQPType,
}

/// The error classification a constant carries in the specification
/// document: most constants are plain values, some name soft (recoverable)
/// errors and some hard (connection-fatal) errors.
#[derive(Clone, Copy, Debug, PartialEq, Eq, Structural)]
pub enum ConstantClass {
    /// A plain constant, not an error code
    Plain,
    /// A recoverable protocol error
    SoftError,
    /// A connection-fatal protocol error
    HardError,
}

/// A class as defined in the AMQP specification
#[derive(Clone, Debug, PartialEq)]
pub struct AMQPClass {
    /// The id of the class
    pub id: u16,
    /// The methods of the class
    pub methods: Vec<AMQPMethod>,
    /// The name of the class
    pub name: String,
    /// The properties of the class
    pub properties: Vec<AMQPProperty>,
    /// Extra metadata for code generation
    pub metadata: serde_json::Value,
}

/// A method as defined in the AMQP specification
#[derive(Clone, Debug, PartialEq)]
pub struct AMQPMethod {
    /// The id of the method
    pub id: u16,
    /// The arguments of the method
    pub arguments: Vec<AMQPArgument>,
    /// The name of the method
    pub name: String,
    /// Whether this method is synchronous or not
    pub synchronous: bool,
    /// Extra metadata for code generation
    pub metadata: serde_json::Value,
    /// Whether this method is a reply or not
    pub is_reply: bool,
}

/// An argument as defined in the AMQP specification: either a single typed
/// value or a group of boolean flags packed together on the wire.
#[derive(Clone, Debug, PartialEq)]
pub enum AMQPArgument {
    /// The argument is holding a value
    Value(AMQPValueArgument),
    /// The argument is holding flags
    Flags(Vec<AMQPFlagArgument>),
}

/// An argument holding a value as defined in the AMQP specification
#[derive(Clone, Debug, PartialEq)]
pub struct AMQPValueArgument {
    /// The type of the argument's value
    pub amqp_type: AMQPType,
    /// The name of the argument's value
    pub name: String,
    /// The default value of the argument's value
    pub default_value: Option<serde_json::Value>,
    /// The domain of the argument's value
    pub domain: Option<String>,
    /// Whether the default value is forced or not
    pub force_default: bool,
}

/// An argument holding flags as defined in the AMQP specification
#[derive(Clone, Debug, PartialEq)]
pub struct AMQPFlagArgument {
    /// The name of the flag
    pub name: String,
    /// The default value for the flag
    pub default_value: bool,
}

/// A property as defined in the AMQP specification
#[derive(Clone, Debug, PartialEq)]
pub struct AMQPProperty {
    /// The type of the property
    pub amqp_type: AMQPType,
    /// The name of the property
    pub name: String,
}

/// The mathematical shape of an argument: a value argument, or a flag group
/// as the sequence of its flags.
pub enum ArgumentModel {
    /// A single typed value argument
    Value(AMQPValueArgument),
    /// A group of packed boolean flags
    Flags(Seq<AMQPFlagArgument>),
}

impl View for AMQPArgument {
    type V = ArgumentModel;

    open spec fn view(&self) -> ArgumentModel {
        match self {
            AMQPArgument::Value(v) => ArgumentModel::Value(*v),
            AMQPArgument::Flags(fs) => ArgumentModel::Flags(fs@),
        }
    }
}

/// The names an argument contributes to its method: the value argument's own
/// name, or the name of every flag in the group.
pub open spec fn argument_names(a: ArgumentModel) -> Seq<Seq<char>> {
    match a {
        ArgumentModel::Value(v) => seq![v.name@],
        ArgumentModel::Flags(fs) => fs.map_values(|f: AMQPFlagArgument| f.name@),
    }
}

/// All names appearing among a method's arguments, in order.
pub open spec fn arguments_names(args: Seq<ArgumentModel>) -> Seq<Seq<char>>
    decreases args.len(),
{
    if args.len() == 0 {
        Seq::empty()
    } else {
        arguments_names(args.drop_last()) + argument_names(args.last())
    }
}

/// Pairwise distinctness of a sequence of names.
pub open spec fn names_unique(names: Seq<Seq<char>>) -> bool {
    forall|i: int, j: int| 0 <= i < j < names.len() ==> names[i] != names[j]
}

impl AMQPMethod {
    /// A method is well formed when its argument and flag names are pairwise
    /// unique.
    pub open spec fn wf(self) -> bool {
        names_unique(arguments_names(self.arguments@.map_values(|a: AMQPArgument| a@)))
    }
}

impl AMQPClass {
    /// A class is well formed when its method ids are pairwise unique and
    /// every method is well formed.
    pub open spec fn wf(self) -> bool {
        &&& forall|i: int, j: int|
            0 <= i < j < self.methods@.len() ==> self.methods@[i].id != self.methods@[j].id
        &&& forall|i: int| 0 <= i < self.methods@.len() ==> (#[trigger] self.methods@[i]).wf()
    }
}

impl AMQProtocolDefinition {
    /// A definition is well formed when its domain names are pairwise
    /// unique, its class ids are pairwise unique, and every class is well
    /// formed.
    pub open spec fn wf(self) -> bool {
        &&& forall|i: int, j: int|
            0 <= i < j < self.domains@.len() ==> self.domains@[i].name@ != self.domains@[j].name@
        &&& forall|i: int, j: int|
            0 <= i < j < self.classes@.len() ==> self.classes@[i].id != self.classes@[j].id
        &&& forall|i: int| 0 <= i < self.classes@.len() ==> (#[trigger] self.classes@[i]).wf()
    }
}


/// The mathematical shape of a domain.
#[verifier::ext_equal]
pub struct DomainModel {
    /// The domain's name
    pub name: Seq<char>,
    /// The type the domain aliases
    pub amqp_type: AMQPType,
}

/// The mathematical shape of a constant.
#[verifier::ext_equal]
pub struct ConstantModel {
    /// The constant's name
    pub name: Seq<char>,
    /// The constant's value
    pub value: u16,
    /// The constant's type
    pub amqp_type: AMQPType,
}

/// The mathematical shape of a property.
#[verifier::ext_equal]
pub struct PropertyModel {
    /// The property's type
    pub amqp_type: AMQPType,
    /// The property's name
    pub name: Seq<char>,
}

/// The mathematical shape of a flag.
#[verifier::ext_equal]
pub struct FlagModel {
    /// The flag's name
    pub name: Seq<char>,
    /// The flag's default
    pub default_value: bool,
}

/// The mathematical shape of a value argument.
#[verifier::ext_equal]
pub struct ValueArgModel {
    /// The argument's type
    pub amqp_type: AMQPType,
    /// The argument's name
    pub name: Seq<char>,
    /// The argument's default, as document content
    pub default_value: Option<JsonModel>,
    /// The domain the argument references
    pub domain: Option<Seq<char>>,
    /// Whether the default is forced
    pub force_default: bool,
}

/// The mathematical shape of a packed argument.
#[verifier::ext_equal]
pub enum ArgModel {
    /// A single typed value argument
    Value(ValueArgModel),
    /// A group of packed boolean flags
    Flags(Seq<FlagModel>),
}

/// The mathematical shape of a method.
#[verifier::ext_equal]
pub struct MethodModel {
    /// The method's id
    pub id: u16,
    /// The method's packed arguments
    pub arguments: Seq<ArgModel>,
    /// The method's name
    pub name: Seq<char>,
    /// Whether the method is synchronous
    pub synchronous: bool,
    /// The method's metadata slot, as document content
    pub metadata: JsonModel,
    /// Whether the method is a reply
    pub is_reply: bool,
}

/// The mathematical shape of a class.
#[verifier::ext_equal]
pub struct ClassModel {
    /// The class's id
    pub id: u16,
    /// The class's methods
    pub methods: Seq<MethodModel>,
    /// The class's name
    pub name: Seq<char>,
    /// The class's properties
    pub properties: Seq<PropertyModel>,
    /// The class's metadata slot, as document content
    pub metadata: JsonModel,
}

/// The mathematical shape of a protocol definition.
#[verifier::ext_equal]
pub struct DefinitionModel {
    /// The protocol's name
    pub name: Seq<char>,
    /// The major version
    pub major_version: u8,
    /// The minor version
    pub minor_version: u8,
    /// The revision
    pub revision: u8,
    /// The default port
    pub port: u32,
    /// The copyright text
    pub copyright: Seq<char>,
    /// The domains, in order
    pub domains: Seq<DomainModel>,
    /// The plain constants, in order
    pub constants: Seq<ConstantModel>,
    /// The soft errors, in order
    pub soft_errors: Seq<ConstantModel>,
    /// The hard errors, in order
    pub hard_errors: Seq<ConstantModel>,
    /// The classes, in order
    pub classes: Seq<ClassModel>,
}

/// The shape of a domain record.
pub open spec fn domain_model(d: AMQPDomain) -> DomainModel {
    DomainModel { name: d.name@, amqp_type: d.amqp_type }
}

/// The shape of a constant record.
pub open spec fn constant_model(c: AMQPConstant) -> ConstantModel {
    ConstantModel { name: c.name@, value: c.value, amqp_type: c.amqp_type }
}

/// The shape of a property record.
pub open spec fn property_model(p: AMQPProperty) -> PropertyModel {
    PropertyModel { amqp_type: p.amqp_type, name: p.name@ }
}

/// The shape of a flag record.
pub open spec fn flag_model(f: AMQPFlagArgument) -> FlagModel {
    FlagModel { name: f.name@, default_value: f.default_value }
}

/// The shape of a value-argument record.
pub open spec fn value_arg_model(v: AMQPValueArgument) -> ValueArgModel {
    ValueArgModel {
        amqp_type: v.amqp_type,
        name: v.name@,
        default_value: match v.default_value {
            Some(w) => Some(content_of(w)),
            None => None,
        },
        domain: match v.domain {
            Some(d) => Some(d@),
            None => None,
        },
        force_default: v.force_default,
    }
}

/// The shape of a packed argument.
pub open spec fn model_of_argument(a: ArgumentModel) -> ArgModel {
    match a {
        ArgumentModel::Value(v) => ArgModel::Value(value_arg_model(v)),
        ArgumentModel::Flags(fs) => ArgModel::Flags(
            fs.map_values(|f: AMQPFlagArgument| flag_model(f)),
        ),
    }
}

/// The shape of a method record.
pub open spec fn method_model(m: AMQPMethod) -> MethodModel {
    MethodModel {
        id: m.id,
        arguments: m.arguments@.map_values(|a: AMQPArgument| model_of_argument(a@)),
        name: m.name@,
        synchronous: m.synchronous,
        metadata: content_of(m.metadata),
        is_reply: m.is_reply,
    }
}

/// The shape of a class record.
pub open spec fn class_model(c: AMQPClass) -> ClassModel {
    ClassModel {
        id: c.id,
        methods: c.methods@.map_values(|m: AMQPMethod| method_model(m)),
        name: c.name@,
        properties: c.properties@.map_values(|p: AMQPProperty| property_model(p)),
        metadata: content_of(c.metadata),
    }
}

/// The shape of a protocol definition.
pub open spec fn definition_model(d: AMQProtocolDefinition) -> DefinitionModel {
    DefinitionModel {
        name: d.name@,
        major_version: d.major_version,
        minor_version: d.minor_version,
        revision: d.revision,
        port: d.port,
        copyright: d.copyright@,
        domains: d.domains@.map_values(|x: AMQPDomain| domain_model(x)),
        constants: d.constants@.map_values(|x: AMQPConstant| constant_model(x)),
        soft_errors: d.soft_errors@.map_values(|x: AMQPConstant| constant_model(x)),
        hard_errors: d.hard_errors@.map_values(|x: AMQPConstant| constant_model(x)),
        classes: d.classes@.map_values(|x: AMQPClass| class_model(x)),
    }
}

/// The names an argument shape contributes to its method.
pub open spec fn arg_model_names(a: ArgModel) -> Seq<Seq<char>> {
    match a {
        ArgModel::Value(v) => seq![v.name],
        ArgModel::Flags(fs) => fs.map_values(|f: FlagModel| f.name),
    }
}

/// All names among a method shape's arguments, in order.
pub open spec fn args_model_names(s: Seq<ArgModel>) -> Seq<Seq<char>>
    decreases s.len(),
{
    if s.len() == 0 {
        Seq::empty()
    } else {
        args_model_names(s.drop_last()) + arg_model_names(s.last())
    }
}

impl MethodModel {
    /// A method shape is well formed when its argument and flag names are
    /// pairwise unique.
    pub open spec fn wf(self) -> bool {
        names_unique(args_model_names(self.arguments))
    }
}

impl ClassModel {
    /// A class shape is well formed when its method ids are pairwise unique
    /// and every method is well formed.
    pub open spec fn wf(self) -> bool {
        &&& forall|i: int, j: int|
            0 <= i < j < self.methods.len() ==> self.methods[i].id != self.methods[j].id
        &&& forall|i: int| 0 <= i < self.methods.len() ==> (#[trigger] self.methods[i]).wf()
    }
}

impl DefinitionModel {
    /// A definition shape is well formed when its domain names are pairwise
    /// unique, its class ids are pairwise unique, and every class is well
    /// formed.
    pub open spec fn wf(self) -> bool {
        &&& forall|i: int, j: int|
            0 <= i < j < self.domains.len() ==> self.domains[i].name != self.domains[j].name
        &&& forall|i: int, j: int|
            0 <= i < j < self.classes.len() ==> self.classes[i].id != self.classes[j].id
        &&& forall|i: int| 0 <= i < self.classes.len() ==> (#[trigger] self.classes[i]).wf()
    }
}

/// An argument list carries the same names under the record view and under
/// the shape.
pub proof fn lemma_names_agree(args: Seq<AMQPArgument>)
    ensures
        arguments_names(args.map_values(|a: AMQPArgument| a@)) == args_model_names(
            args.map_values(|a: AMQPArgument| model_of_argument(a@)),
        ),
    decreases args.len(),
{
    let sh = args.map_values(|a: AMQPArgument| a@);
    let dp = args.map_values(|a: AMQPArgument| model_of_argument(a@));
    if args.len() == 0 {
        assert(sh =~= Seq::empty());
        assert(dp =~= Seq::empty());
    } else {
        lemma_names_agree(args.drop_last());
        assert(args.drop_last().map_values(|a: AMQPArgument| a@) =~= sh.drop_last());
        assert(args.drop_last().map_values(|a: AMQPArgument| model_of_argument(a@))
            =~= dp.drop_last());
        match args.last() {
            AMQPArgument::Value(v) => {
                assert(argument_names(sh.last()) =~= arg_model_names(dp.last()));
            },
            AMQPArgument::Flags(fs) => {
                assert(argument_names(sh.last()) =~= fs@.map_values(
                    |f: AMQPFlagArgument| f.name@,
                ));
                assert(arg_model_names(dp.last()) =~= fs@.map_values(
                    |f: AMQPFlagArgument| flag_model(f),
                ).map_values(|f: FlagModel| f.name));
                assert(fs@.map_values(|f: AMQPFlagArgument| f.name@) =~= fs@.map_values(
                    |f: AMQPFlagArgument| flag_model(f),
                ).map_values(|f: FlagModel| f.name));
            },
        }
    }
}

/// A method record is well formed exactly when its shape is.
pub proof fn lemma_method_wf_model(m: AMQPMethod)
    ensures
        m.wf() <==> method_model(m).wf(),
{
    lemma_names_agree(m.arguments@);
}

/// A class record is well formed exactly when its shape is.
pub proof fn lemma_class_wf_model(c: AMQPClass)
    ensures
        c.wf() <==> class_model(c).wf(),
{
    let cm = class_model(c);
    if c.wf() {
        assert forall|i: int, j: int| 0 <= i < j < cm.methods.len() implies cm.methods[i].id
            != cm.methods[j].id by {
            assert(cm.methods[i] == method_model(c.methods@[i]));
            assert(cm.methods[j] == method_model(c.methods@[j]));
        }
        assert forall|i: int| 0 <= i < cm.methods.len() implies (#[trigger] cm.methods[i]).wf() by {
            assert(cm.methods[i] == method_model(c.methods@[i]));
            assert(c.methods@[i].wf());
            lemma_method_wf_model(c.methods@[i]);
        }
        assert(cm.wf());
    }
    if cm.wf() {
        assert forall|i: int, j: int| 0 <= i < j < c.methods@.len() implies c.methods@[i].id
            != c.methods@[j].id by {
            assert(cm.methods[i] == method_model(c.methods@[i]));
            assert(cm.methods[j] == method_model(c.methods@[j]));
            assert(cm.methods[i].id != cm.methods[j].id);
        }
        assert forall|i: int| 0 <= i < c.methods@.len() implies (#[trigger] c.methods@[i]).wf() by {
            assert(cm.methods[i] == method_model(c.methods@[i]));
            assert(cm.methods[i].wf());
            lemma_method_wf_model(c.methods@[i]);
        }
        assert(c.wf());
    }
}

/// A definition record is well formed exactly when its shape is.
pub proof fn lemma_definition_wf_model(d: AMQProtocolDefinition)
    ensures
        d.wf() <==> definition_model(d).wf(),
{
    let dm = definition_model(d);
    if d.wf() {
        assert forall|i: int, j: int| 0 <= i < j < dm.domains.len() implies dm.domains[i].name
            != dm.domains[j].name by {
            assert(dm.domains[i] == domain_model(d.domains@[i]));
            assert(dm.domains[j] == domain_model(d.domains@[j]));
        }
        assert forall|i: int, j: int| 0 <= i < j < dm.classes.len() implies dm.classes[i].id
            != dm.classes[j].id by {
            assert(dm.classes[i] == class_model(d.classes@[i]));
            assert(dm.classes[j] == class_model(d.classes@[j]));
        }
        assert forall|i: int| 0 <= i < dm.classes.len() implies (#[trigger] dm.classes[i]).wf() by {
            assert(dm.classes[i] == class_model(d.classes@[i]));
            assert(d.classes@[i].wf());
            lemma_class_wf_model(d.classes@[i]);
        }
        assert(dm.wf());
    }
    if dm.wf() {
        assert forall|i: int, j: int| 0 <= i < j < d.domains@.len() implies d.domains@[i].name@
            != d.domains@[j].name@ by {
            assert(dm.domains[i] == domain_model(d.domains@[i]));
            assert(dm.domains[j] == domain_model(d.domains@[j]));
            assert(dm.domains[i].name != dm.domains[j].name);
        }
        assert forall|i: int, j: int| 0 <= i < j < d.classes@.len() implies d.classes@[i].id
            != d.classes@[j].id by {
            assert(dm.classes[i] == class_model(d.classes@[i]));
            assert(dm.classes[j] == class_model(d.classes@[j]));
            assert(dm.classes[i].id != dm.classes[j].id);
        }
        assert forall|i: int| 0 <= i < d.classes@.len() implies (#[trigger] d.classes@[i]).wf() by {
            assert(dm.classes[i] == class_model(d.classes@[i]));
            assert(dm.classes[i].wf());
            lemma_class_wf_model(d.classes@[i]);
        }
        assert(d.wf());
    }
}

} // verus!
