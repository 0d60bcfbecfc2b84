//! Operation vocabularies, and the table that gene values are resolved
//! against while a genotype is decoded.

use vstd::prelude::*;
use std::rc::Rc;
use std::sync::Arc;
use crate::error::GepError;
use crate::expressions::Expression;
use crate::operation_ids::OperationIds;
use crate::primitive_operations::{Argument, PrimitiveOperation};
use crate::stack_operation::{StackOperation, Step};
use crate::text::texts_of;

verus! {

/// The argument primitives of a vocabulary that declares `count` arguments.
pub open spec fn argument_primitives(count: nat) -> Seq<PrimitiveOperation> {
    Seq::new(count, |j: int| PrimitiveOperation::Argument(Argument::Arg(j as u32)))
}

/// The text of the vocabulary entry at `position`, or no text where the
/// vocabulary has no such entry.
pub open spec fn entry_text(entries: Seq<PrimitiveOperation>, position: int) -> Seq<char> {
    if 0 <= position < entries.len() {
        entries[position].display()
    } else {
        Seq::empty()
    }
}

/// The vocabulary has an entry at `position`, and `text` is its text.
pub open spec fn agrees(entries: Seq<PrimitiveOperation>, position: int, text: Seq<char>) -> bool {
    0 <= position < entries.len() && text == entries[position].display()
}

/// The first position at which a persisted text has no vocabulary entry
/// beside it or differs from the text of that entry, if there is one.
pub open spec fn first_mismatch(
    entries: Seq<PrimitiveOperation>,
    persisted: Seq<Seq<char>>,
) -> Option<int>
    decreases persisted.len(),
{
    if persisted.len() == 0 {
        None
    } else {
        match first_mismatch(entries, persisted.drop_last()) {
            Some(position) => Some(position),
            None => if agrees(entries, persisted.len() - 1, persisted.last()) {
                None
            } else {
                Some(persisted.len() - 1)
            },
        }
    }
}

/// What `first_mismatch` finds: every text before the position agrees with
/// its entry and the text at the position does not, or every text agrees
/// where it finds none.
pub proof fn lemma_first_mismatch(entries: Seq<PrimitiveOperation>, persisted: Seq<Seq<char>>)
    ensures
        match first_mismatch(entries, persisted) {
            Some(position) => {
                &&& 0 <= position < persisted.len()
                &&& !agrees(entries, position, persisted[position])
                &&& forall|i: int| 0 <= i < position ==> agrees(entries, i, #[trigger] persisted[i])
            },
            None => forall|i: int|
                0 <= i < persisted.len() ==> agrees(entries, i, #[trigger] persisted[i]),
        },
    decreases persisted.len(),
{
    if persisted.len() > 0 {
        lemma_first_mismatch(entries, persisted.drop_last());
        assert forall|i: int| 0 <= i < persisted.len() - 1 implies persisted.drop_last()[i]
            == persisted[i] by {}
        match first_mismatch(entries, persisted.drop_last()) {
            Some(position) => {
                assert(persisted.drop_last()[position] == persisted[position]);
                assert forall|i: int| 0 <= i < position implies agrees(
                    entries,
                    i,
                    #[trigger] persisted[i],
                ) by {
                    assert(persisted.drop_last()[i] == persisted[i]);
                }
            },
            None => {
                assert forall|i: int| 0 <= i < persisted.len() - 1 implies agrees(
                    entries,
                    i,
                    #[trigger] persisted[i],
                ) by {
                    assert(persisted.drop_last()[i] == persisted[i]);
                }
            },
        }
    }
}

/// A mismatch among the first texts is the first mismatch among them all.
pub proof fn lemma_mismatch_stays(
    entries: Seq<PrimitiveOperation>,
    persisted: Seq<Seq<char>>,
    n: int,
)
    requires
        0 <= n <= persisted.len(),
        first_mismatch(entries, persisted.take(n)) is Some,
    ensures
        first_mismatch(entries, persisted) == first_mismatch(entries, persisted.take(n)),
    decreases persisted.len() - n,
{
    if n == persisted.len() {
        assert(persisted.take(n) =~= persisted);
    } else {
        assert(persisted.take(n + 1).drop_last() =~= persisted.take(n));
        lemma_mismatch_stays(entries, persisted, n + 1);
    }
}

/// The error that `bincode` reports when bytes cannot be read back.
#[verifier::external_type_specification]
#[verifier::external_body]
pub struct ExErrorKind(bincode::ErrorKind);

/// The list of texts that `bincode::deserialize` reads from `bytes`, where
/// it reads one.
pub uninterp spec fn bincode_strings(bytes: Seq<u8>) -> Option<Seq<Seq<char>>>;

/// Calls `bincode::deserialize` for a list of strings. That function turns
/// the same bytes into the same value or refuses them, whatever else goes
/// on; the contract gives its result the name `bincode_strings` and claims
/// nothing of what that result is.
#[verifier::external_body]
fn decode_strings(bytes: &[u8]) -> (decoded: Result<Vec<String>, Box<bincode::ErrorKind>>)
    ensures
        match decoded {
            Ok(strings) => bincode_strings(bytes@) == Some(texts_of(strings@)),
            Err(_) => bincode_strings(bytes@) is None,
        },
{
    bincode::deserialize(bytes)
}

/// The entries are those of a vocabulary that declares `args_count`
/// arguments: the last ones are the argument primitives, in the order of
/// their indices, and none before them is an argument.
pub open spec fn is_vocabulary(entries: Seq<PrimitiveOperation>, args_count: u32) -> bool {
    let given = entries.len() - args_count;
    &&& given >= 0
    &&& forall|i: int| 0 <= i < given ==> !(#[trigger] entries[i]).spec_is_argument()
    &&& forall|j: int|
        0 <= j < args_count ==> #[trigger] entries[given + j] == PrimitiveOperation::Argument(
            Argument::Arg(j as u32),
        )
}

/// The given primitives followed by one argument primitive for each of
/// `args_count` arguments.
///
/// Fails with a configuration error exactly when one of the given
/// primitives is itself an argument.
pub fn with_arguments(operations: Vec<PrimitiveOperation>, args_count: u32) -> (made: Result<
    Vec<PrimitiveOperation>,
    GepError,
>)
    requires
        operations.len() + args_count <= u32::MAX,
    ensures
        match made {
            Ok(entries) => {
                &&& forall|i: int|
                    0 <= i < operations.len() ==> !(#[trigger] operations[i]).spec_is_argument()
                &&& entries@ == operations@ + argument_primitives(args_count as nat)
            },
            Err(e) => {
                &&& e == GepError::Configuration
                &&& exists|i: int|
                    0 <= i < operations.len() && (#[trigger] operations[i]).spec_is_argument()
            },
        },
{
    let mut entries = operations;
    let mut checked: usize = 0;
    while checked < entries.len()
        invariant
            entries@ == operations@,
            checked <= entries.len(),
            forall|i: int| 0 <= i < checked ==> !(#[trigger] operations[i]).spec_is_argument(),
        decreases entries.len() - checked,
    {
        if entries[checked].is_argument() {
            return Err(GepError::Configuration);
        }
        checked += 1;
    }
    let mut arg_i: u32 = 0;
    while arg_i < args_count
        invariant
            arg_i <= args_count,
            operations.len() + args_count <= u32::MAX,
            entries@ =~= operations@ + argument_primitives(arg_i as nat),
        decreases args_count - arg_i,
    {
        entries.push(PrimitiveOperation::Argument(Argument::Arg(arg_i)));
        arg_i += 1;
    }
    Ok(entries)
}

/// A copy of the primitives.
pub fn copy_operations(operations: &Vec<PrimitiveOperation>) -> (copy: Vec<PrimitiveOperation>)
    ensures
        copy@ == operations@,
{
    let mut copy: Vec<PrimitiveOperation> = Vec::new();
    let mut done: usize = 0;
    while done < operations.len()
        invariant
            done <= operations.len(),
            copy@ =~= operations@.take(done as int),
        decreases operations.len() - done,
    {
        copy.push(operations[done]);
        done += 1;
    }
    assert(copy@ =~= operations@);
    copy
}

/// An operation vocabulary: the primitives a genotype may name, followed by
/// one argument primitive for each declared argument.
#[derive(Debug)]
pub struct PrimitiveOperationSet {
    operations_set: Vec<PrimitiveOperation>,
    args_count: u32,
}

impl View for PrimitiveOperationSet {
    type V = Seq<PrimitiveOperation>;

    /// The entries of the vocabulary, in the order of their identifiers.
    closed spec fn view(&self) -> Seq<PrimitiveOperation> {
        self.operations_set@
    }
}

impl Clone for PrimitiveOperationSet {
    fn clone(&self) -> (copy: Self)
        ensures
            copy@ == self@,
            copy.spec_args_count() == self.spec_args_count(),
    {
        proof {
            use_type_invariant(self);
        }
        PrimitiveOperationSet {
            operations_set: copy_operations(&self.operations_set),
            args_count: self.args_count,
        }
    }
}

impl PrimitiveOperationSet {
    #[verifier::type_invariant]
    spec fn well_formed(&self) -> bool {
        &&& self.operations_set@.len() <= u32::MAX
        &&& is_vocabulary(self.operations_set@, self.args_count)
    }

    /// How many arguments the vocabulary declares.
    pub closed spec fn spec_args_count(&self) -> u32 {
        self.args_count
    }

    /// Makes a vocabulary of the given primitives and `args_count` arguments.
    ///
    /// Fails with a configuration error exactly when one of the given
    /// primitives is itself an argument.
    pub fn new(operations: Vec<PrimitiveOperation>, args_count: u32) -> (made: Result<
        PrimitiveOperationSet,
        GepError,
    >)
        requires
            operations.len() + args_count <= u32::MAX,
        ensures
            match made {
                Ok(set) => {
                    &&& forall|i: int|
                        0 <= i < operations.len() ==> !(#[trigger] operations[i]).spec_is_argument()
                    &&& set@ == operations@ + argument_primitives(args_count as nat)
                    &&& set.spec_args_count() == args_count
                },
                Err(e) => {
                    &&& e == GepError::Configuration
                    &&& exists|i: int|
                        0 <= i < operations.len() && (#[trigger] operations[i]).spec_is_argument()
                },
            },
    {
        match with_arguments(operations, args_count) {
            Ok(entries) => Ok(PrimitiveOperationSet { operations_set: entries, args_count }),
            Err(e) => Err(e),
        }
    }

    #[verifier::when_used_as_spec(spec_args_count)]
    pub fn args_count(&self) -> (n: u32)
        ensures
            n == self.spec_args_count(),
    {
        self.args_count
    }

    /// The number of entries, arguments included.
    pub fn len(&self) -> (n: usize)
        ensures
            n == self@.len(),
            n <= u32::MAX,
    {
        proof {
            use_type_invariant(self);
        }
        self.operations_set.len()
    }

    /// The entries, in the order of their identifiers: the arguments last,
    /// and no argument before them.
    pub fn operations(&self) -> (entries: &Vec<PrimitiveOperation>)
        ensures
            entries@ == self@,
            is_vocabulary(self@, self.spec_args_count()),
    {
        proof {
            use_type_invariant(self);
        }
        &self.operations_set
    }

    /// The display texts of the entries, in the order of their identifiers.
    pub fn displays(&self) -> (texts: Vec<String>)
        ensures
            texts@.len() == self@.len(),
            forall|i: int| 0 <= i < self@.len() ==> (#[trigger] texts@[i])@ == self@[i].display(),
    {
        let mut texts: Vec<String> = Vec::new();
        let mut i: usize = 0;
        while i < self.operations_set.len()
            invariant
                i <= self.operations_set@.len(),
                texts@.len() == i,
                forall|j: int|
                    0 <= j < i ==> (#[trigger] texts@[j])@ == self.operations_set@[j].display(),
            decreases self.operations_set.len() - i,
        {
            texts.push(self.operations_set[i].to_string());
            i += 1;
        }
        texts
    }

    /// Compares persisted display texts with those of the entries at the
    /// same positions.
    ///
    /// Fails with a schema mismatch exactly when a text has no entry beside
    /// it or differs from the text of that entry, and names the first such
    /// position with the persisted text and the text of the entry.
    pub fn validate(&self, ops_displays: &Vec<String>) -> (outcome: Result<(), GepError>)
        ensures
            match first_mismatch(self@, texts_of(ops_displays@)) {
                None => outcome is Ok,
                Some(position) => (outcome matches Err(
                    GepError::SchemaMismatch { index, expected, actual },
                ) && index == position && expected@ == ops_displays@[position]@ && actual@
                    == entry_text(self@, position)),
            },
    {
        let ghost persisted = texts_of(ops_displays@);
        let mut i: usize = 0;
        while i < ops_displays.len()
            invariant
                i <= ops_displays@.len(),
                persisted == texts_of(ops_displays@),
                first_mismatch(self@, persisted.take(i as int)) is None,
            decreases ops_displays.len() - i,
        {
            assert(persisted.take(i + 1).drop_last() =~= persisted.take(i as int));
            assert(persisted.take(i + 1).last() == ops_displays@[i as int]@);
            let op_display = if i < self.operations_set.len() {
                self.operations_set[i].to_string()
            } else {
                String::new()
            };
            if i >= self.operations_set.len() || op_display != ops_displays[i] {
                proof {
                    lemma_mismatch_stays(self@, persisted, i + 1);
                }
                return Err(
                    GepError::SchemaMismatch {
                        index: i,
                        expected: ops_displays[i].clone(),
                        actual: op_display,
                    },
                );
            }
            i += 1;
        }
        assert(persisted.take(i as int) =~= persisted);
        Ok(())
    }

    /// Reads persisted display texts from `bytes` and compares them with
    /// those of the entries, as `validate` does.
    ///
    /// Fails with an input fault exactly when the bytes do not hold a list
    /// of texts.
    pub fn validate_bytes(&self, bytes: &[u8]) -> (outcome: Result<(), GepError>)
        ensures
            match bincode_strings(bytes@) {
                None => outcome == Err::<(), GepError>(GepError::IoFault),
                Some(persisted) => match first_mismatch(self@, persisted) {
                    None => outcome is Ok,
                    Some(position) => (outcome matches Err(
                        GepError::SchemaMismatch { index, expected, actual },
                    ) && index == position && expected@ == persisted[position] && actual@
                        == entry_text(self@, position)),
                },
            },
    {
        match decode_strings(bytes) {
            Ok(ops_displays) => {
                proof {
                    lemma_first_mismatch(self@, texts_of(ops_displays@));
                }
                self.validate(&ops_displays)
            },
            Err(_) => Err(GepError::IoFault),
        }
    }

    /// A fresh identifier space over the entries, with no sub-expression
    /// slot yet.
    pub fn operation_ids(&self) -> (ids: OperationIds)
        ensures
            ids.spec_operations_count() == self@.len(),
            ids.spec_expr_count() == 0,
    {
        proof {
            use_type_invariant(self);
        }
        OperationIds::new(self.operations_set.len() as u32)
    }
}

/// What a gene value stands for, given the vocabulary and the programs
/// registered so far: a primitive where the value is below the size of the
/// vocabulary, else the registered program that the remainder counts, and a
/// fault where there is no such program.
pub open spec fn resolve(primitives: Seq<PrimitiveOperation>, subs: Seq<Seq<Step>>, id: u32) -> Result<
    Step,
    GepError,
> {
    if id < primitives.len() {
        Ok(Step::Primitive(primitives[id as int]))
    } else if id - primitives.len() < subs.len() {
        Ok(Step::Call(subs[id - primitives.len()], (id - primitives.len()) as usize))
    } else {
        Err(GepError::IdentifierOutOfRange { id })
    }
}

/// The table that gene values are resolved against while a genotype is
/// decoded: the vocabulary, and the sub-expressions decoded so far.
pub struct OperationSet {
    primitive_set: Arc<PrimitiveOperationSet>,
    sub_expr_set: Vec<Rc<Expression>>,
}

impl OperationSet {
    /// The entries of the vocabulary.
    pub closed spec fn primitives(&self) -> Seq<PrimitiveOperation> {
        self.primitive_set@
    }

    /// The content of the registered sub-expressions, in the order in which
    /// they were registered.
    pub closed spec fn sub_exprs(&self) -> Seq<Seq<Step>> {
        Seq::new(self.sub_expr_set@.len(), |i: int| self.sub_expr_set@[i]@)
    }

    pub fn from_primitive_set(primitives_set: &Arc<PrimitiveOperationSet>) -> (table: OperationSet)
        ensures
            table.primitives() == primitives_set@,
            table.sub_exprs() == Seq::<Seq<Step>>::empty(),
    {
        let table = OperationSet { primitive_set: Arc::clone(primitives_set), sub_expr_set: Vec::new() };
        assert(table.sub_exprs() =~= Seq::<Seq<Step>>::empty());
        table
    }

    /// Resolves a gene value, as `resolve` says.
    pub fn operation_by_id(&self, id: u32) -> (found: Result<StackOperation, GepError>)
        ensures
            match resolve(self.primitives(), self.sub_exprs(), id) {
                Ok(step) => (found matches Ok(op) && op@ == step),
                Err(fault) => (found matches Err(e) && e == fault),
            },
    {
        let index = id as usize;
        let operations_count = self.primitive_set.len();
        if index < operations_count {
            return Ok(StackOperation::Primitive(self.primitive_set.operations()[index]));
        }
        let sub_expr_index = index - operations_count;
        let subs_expr_count = self.sub_expr_set.len();
        if sub_expr_index >= subs_expr_count {
            return Err(GepError::IdentifierOutOfRange { id });
        }
        Ok(StackOperation::Expression(Rc::clone(&self.sub_expr_set[sub_expr_index]), sub_expr_index))
    }

    /// Registers a decoded sub-expression under the next free slot.
    pub fn add_sub_expr(&mut self, sub_expr: Expression)
        ensures
            final(self).primitives() == old(self).primitives(),
            final(self).sub_exprs() == old(self).sub_exprs().push(sub_expr@),
    {
        self.sub_expr_set.push(Rc::new(sub_expr));
        assert(self.sub_exprs() =~= old(self).sub_exprs().push(sub_expr@));
    }
}

} // verus!
