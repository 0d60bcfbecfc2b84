//! Sets of genes that are drawn from and read through two traits.

use vstd::prelude::*;
use std::rc::Rc;
use crate::error::GepError;
use crate::expressions::Expression;
use crate::operation_ids::draw_below;
use crate::operation_set::{argument_primitives, copy_operations, with_arguments};
use crate::primitive_operations::PrimitiveOperation;
use crate::stack_operation::{StackOperation, Step};

verus! {

/// What a gene value stands for in a dictionary that declares `declared`
/// sub-expressions and stores `stored`: a primitive where the value is below
/// the number of primitives, else the stored sub-expression that the
/// remainder counts, and a fault where that one is not declared or not
/// stored.
pub open spec fn gene(
    operations: Seq<PrimitiveOperation>,
    declared: u8,
    stored: Seq<Seq<Step>>,
    id: u32,
) -> Result<Step, GepError> {
    if id < operations.len() {
        Ok(Step::Primitive(operations[id as int]))
    } else if id - operations.len() < declared && id - operations.len() < stored.len() {
        Ok(Step::Call(stored[id - operations.len()], (id - operations.len()) as usize))
    } else {
        Err(GepError::IdentifierOutOfRange { id })
    }
}

/// What a set of genes holds, for the contracts of those that draw gene
/// values and of those that read them.
pub trait GenesModel {
    /// The primitives, in the order of their identifiers.
    spec fn entries(&self) -> Seq<PrimitiveOperation>;

    /// How many sub-expressions are declared: their identifiers follow
    /// those of the primitives.
    spec fn declared_adfs(&self) -> u8;

    /// The content of the sub-expressions that are stored.
    spec fn stored_adfs(&self) -> Seq<Seq<Step>>;

    /// How many arguments are declared.
    spec fn declared_args(&self) -> u32;
}

/// Draws gene values.
pub trait GenesProducer: GenesModel + Sized {
    /// What the producer turns into once its genes are to be read.
    type Dictionary: GenesDictionary;

    /// Draws from the identifiers of the primitives and of the declared
    /// sub-expressions. Fails exactly when there is none.
    fn random_gene_id(&self) -> (drawn: Result<u32, GepError>)
        ensures
            match drawn {
                Ok(id) => id < self.entries().len() + self.declared_adfs(),
                Err(e) => e == GepError::EmptySpace && self.entries().len() + self.declared_adfs()
                    == 0,
            },
    ;

    /// The dictionary that reads the genes drawn: it holds what the
    /// producer holds.
    fn dictionary(self) -> (dict: Self::Dictionary)
        ensures
            dict.entries() == self.entries(),
            dict.declared_adfs() == self.declared_adfs(),
            dict.stored_adfs() == self.stored_adfs(),
            dict.declared_args() == self.declared_args(),
    ;

    /// A producer of the same primitives that declares `available_adfs`
    /// sub-expressions and stores none.
    fn with_adfs(&self, available_adfs: u8) -> (producer: Self)
        requires
            self.entries().len() + available_adfs <= u32::MAX,
        ensures
            producer.entries() == self.entries(),
            producer.declared_args() == self.declared_args(),
            producer.declared_adfs() == available_adfs,
            producer.stored_adfs() == Seq::<Seq<Step>>::empty(),
    ;
}

/// Reads gene values.
pub trait GenesDictionary: GenesModel + Sized {
    /// A dictionary of the same primitives that stores `exprs` as its
    /// sub-expressions. Fails with a configuration error exactly when their
    /// number is not the number of sub-expressions that the dictionary
    /// declares.
    fn with_adfs(&self, exprs: Vec<Rc<Expression>>) -> (made: Result<Self, GepError>)
        ensures
            match made {
                Ok(dict) => {
                    &&& exprs@.len() == self.declared_adfs()
                    &&& dict.entries() == self.entries()
                    &&& dict.declared_args() == self.declared_args()
                    &&& dict.declared_adfs() == self.declared_adfs()
                    &&& dict.stored_adfs() == Seq::new(exprs@.len(), |i: int| exprs@[i]@)
                },
                Err(e) => e == GepError::Configuration && exprs@.len() != self.declared_adfs(),
            },
    ;

    /// The operation that a gene value stands for, as `gene` says.
    fn gene_by_id(&self, id: u32) -> (found: Result<StackOperation, GepError>)
        ensures
            match gene(self.entries(), self.declared_adfs(), self.stored_adfs(), id) {
                Ok(step) => (found matches Ok(op) && op@ == step),
                Err(fault) => (found matches Err(e) && e == fault),
            },
    ;

    /// How many arguments the expressions read.
    fn args_amount(&self) -> (n: u32)
        ensures
            n == self.declared_args(),
    ;
}

/// A vocabulary that both draws and reads gene values: primitives, one
/// argument primitive for each declared argument, and room for a declared
/// number of sub-expressions.
pub struct GenesSet {
    operations_set: Vec<PrimitiveOperation>,
    adfs_set: Vec<Rc<Expression>>,
    operations_count: u32,
    adfs_count: u8,
    args_count: u32,
}

impl GenesSet {
    #[verifier::type_invariant]
    spec fn well_formed(&self) -> bool {
        &&& self.operations_count == self.operations_set@.len()
        &&& self.operations_set@.len() + self.adfs_count <= u32::MAX
    }

    /// Makes a set of the given primitives and `args_amount` arguments, with
    /// no sub-expression declared.
    ///
    /// Fails with a configuration error exactly when one of the given
    /// primitives is itself an argument.
    pub fn new(operations: Vec<PrimitiveOperation>, args_amount: u32) -> (made: Result<
        GenesSet,
        GepError,
    >)
        requires
            operations.len() + args_amount <= u32::MAX,
        ensures
            match made {
                Ok(set) => {
                    &&& forall|i: int|
                        0 <= i < operations.len() ==> !(#[trigger] operations[i]).spec_is_argument()
                    &&& set.entries() == operations@ + argument_primitives(args_amount as nat)
                    &&& set.declared_adfs() == 0
                    &&& set.stored_adfs() == Seq::<Seq<Step>>::empty()
                    &&& set.declared_args() == args_amount
                },
                Err(e) => {
                    &&& e == GepError::Configuration
                    &&& exists|i: int|
                        0 <= i < operations.len() && (#[trigger] operations[i]).spec_is_argument()
                },
            },
    {
        let entries = match with_arguments(operations, args_amount) {
            Ok(entries) => entries,
            Err(e) => {
                return Err(e);
            },
        };
        let set = GenesSet {
            operations_count: entries.len() as u32,
            operations_set: entries,
            adfs_set: Vec::new(),
            adfs_count: 0,
            args_count: args_amount,
        };
        assert(set.stored_adfs() =~= Seq::<Seq<Step>>::empty());
        Ok(set)
    }
}

impl Clone for GenesSet {
    fn clone(&self) -> (copy: Self)
        ensures
            copy.entries() == self.entries(),
            copy.declared_adfs() == self.declared_adfs(),
            copy.stored_adfs() == self.stored_adfs(),
            copy.declared_args() == self.declared_args(),
    {
        proof {
            use_type_invariant(self);
        }
        let mut adfs: Vec<Rc<Expression>> = Vec::new();
        let mut done: usize = 0;
        while done < self.adfs_set.len()
            invariant
                done <= self.adfs_set.len(),
                adfs@ =~= self.adfs_set@.take(done as int),
            decreases self.adfs_set.len() - done,
        {
            adfs.push(Rc::clone(&self.adfs_set[done]));
            done += 1;
        }
        assert(adfs@ =~= self.adfs_set@);
        GenesSet {
            operations_set: copy_operations(&self.operations_set),
            adfs_set: adfs,
            operations_count: self.operations_count,
            adfs_count: self.adfs_count,
            args_count: self.args_count,
        }
    }
}

impl GenesModel for GenesSet {
    closed spec fn entries(&self) -> Seq<PrimitiveOperation> {
        self.operations_set@
    }

    closed spec fn declared_adfs(&self) -> u8 {
        self.adfs_count
    }

    closed spec fn stored_adfs(&self) -> Seq<Seq<Step>> {
        Seq::new(self.adfs_set@.len(), |i: int| self.adfs_set@[i]@)
    }

    closed spec fn declared_args(&self) -> u32 {
        self.args_count
    }
}

impl GenesProducer for GenesSet {
    type Dictionary = GenesSet;

    fn random_gene_id(&self) -> (drawn: Result<u32, GepError>) {
        proof {
            use_type_invariant(self);
        }
        let available_items = self.operations_count + self.adfs_count as u32;
        if available_items == 0 {
            return Err(GepError::EmptySpace);
        }
        Ok(draw_below(available_items))
    }

    fn dictionary(self) -> (dict: GenesSet) {
        self
    }

    fn with_adfs(&self, available_adfs: u8) -> (producer: GenesSet) {
        proof {
            use_type_invariant(self);
        }
        let producer = GenesSet {
            operations_set: copy_operations(&self.operations_set),
            operations_count: self.operations_count,
            args_count: self.args_count,
            adfs_set: Vec::new(),
            adfs_count: available_adfs,
        };
        assert(producer.stored_adfs() =~= Seq::<Seq<Step>>::empty());
        producer
    }
}

impl GenesDictionary for GenesSet {
    fn with_adfs(&self, exprs: Vec<Rc<Expression>>) -> (made: Result<GenesSet, GepError>) {
        proof {
            use_type_invariant(self);
        }
        if exprs.len() != self.adfs_count as usize {
            return Err(GepError::Configuration);
        }
        Ok(
            GenesSet {
                operations_set: copy_operations(&self.operations_set),
                adfs_set: exprs,
                operations_count: self.operations_count,
                adfs_count: self.adfs_count,
                args_count: self.args_count,
            },
        )
    }

    fn gene_by_id(&self, id: u32) -> (found: Result<StackOperation, GepError>) {
        proof {
            use_type_invariant(self);
        }
        if id < self.operations_count {
            return Ok(StackOperation::Primitive(self.operations_set[id as usize]));
        }
        if id >= self.operations_count + self.adfs_count as u32 {
            return Err(GepError::IdentifierOutOfRange { id });
        }
        let adf_id = (id - self.operations_count) as usize;
        if adf_id >= self.adfs_set.len() {
            return Err(GepError::IdentifierOutOfRange { id });
        }
        Ok(StackOperation::Expression(Rc::clone(&self.adfs_set[adf_id]), adf_id))
    }

    fn args_amount(&self) -> (n: u32) {
        self.args_count
    }
}

} // verus!
