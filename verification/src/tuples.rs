//! The signatures of two to twenty payloads.
use vstd::prelude::*;
use crate::cell::views_of_refs;
use crate::cell::CellView;
use crate::cell::ValueCell;
use crate::error::GraphError;
use crate::identity::Payload;
use crate::identity::TypeIdentity;
use crate::signature::check_identities;
use crate::signature::first_fault;
use crate::signature::lemma_fault_kind;
use crate::signature::lemma_fitting_cells;
use crate::signature::lemma_no_fault;
use crate::signature::InputOrOutput;

verus! {

impl<T1: Payload, T2: Payload> InputOrOutput for (T1, T2) {
    type T = (T1, T2);

    open spec fn types() -> Seq<TypeIdentity> {
        seq![T1::identity(), T2::identity()]
    }

    open spec fn assemble(cells: Seq<CellView>) -> Result<Self::T, GraphError> {
        match first_fault(Self::types(), cells, Self::types().len()) {
            Some(fault) => Err(fault),
            None => Ok(
                (
                    ValueCell::payload_spec::<T1>(cells[0]),
                    ValueCell::payload_spec::<T2>(cells[1]),
                ),
            ),
        }
    }

    open spec fn disassemble(item: Self::T) -> Seq<CellView> {
        seq![ValueCell::of(item.0), ValueCell::of(item.1)]
    }

    open spec fn comes_back(item: Self::T) -> bool {
        &&& T1::decoded(item.0.encoding()) == item.0
        &&& T2::decoded(item.1.encoding()) == item.1
    }

    proof fn lemma_disassemble_types(item: Self::T) {
    }

    proof fn lemma_assemble_faults(cells: Seq<CellView>) {
        lemma_fault_kind(Self::types(), cells, Self::types().len());
    }

    proof fn lemma_assemble_fitting(cells: Seq<CellView>) {
        lemma_fitting_cells(Self::types(), cells, Self::types().len());
    }

    proof fn lemma_round_trip(item: Self::T) {
        Self::lemma_disassemble_types(item);
        lemma_fitting_cells(Self::types(), Self::disassemble(item), Self::types().len());
    }

    fn convert(items: Vec<&ValueCell>) -> (item: Result<Self::T, GraphError>) {
        check_identities(&items, &Self::needed_types())?;
        proof {
            lemma_no_fault(Self::types(), views_of_refs(items@), Self::types().len());
        }
        let t1 = items[0].extract::<T1>()?;
        let t2 = items[1].extract::<T2>()?;
        Ok((t1, t2))
    }

    fn convert_output(item: &Self::T) -> (cells: Vec<ValueCell>) {
        vec![ValueCell::new(&item.0), ValueCell::new(&item.1)]
    }

    fn needed_types() -> (types: Vec<TypeIdentity>) {
        vec![T1::type_identity(), T2::type_identity()]
    }
}

impl<T1: Payload, T2: Payload, T3: Payload> InputOrOutput for (T1, T2, T3) {
    type T = (T1, T2, T3);

    open spec fn types() -> Seq<TypeIdentity> {
        seq![T1::identity(), T2::identity(), T3::identity()]
    }

    open spec fn assemble(cells: Seq<CellView>) -> Result<Self::T, GraphError> {
        match first_fault(Self::types(), cells, Self::types().len()) {
            Some(fault) => Err(fault),
            None => Ok(
                (
                    ValueCell::payload_spec::<T1>(cells[0]),
                    ValueCell::payload_spec::<T2>(cells[1]),
                    ValueCell::payload_spec::<T3>(cells[2]),
                ),
            ),
        }
    }

    open spec fn disassemble(item: Self::T) -> Seq<CellView> {
        seq![ValueCell::of(item.0), ValueCell::of(item.1), ValueCell::of(item.2)]
    }

    open spec fn comes_back(item: Self::T) -> bool {
        &&& T1::decoded(item.0.encoding()) == item.0
        &&& T2::decoded(item.1.encoding()) == item.1
        &&& T3::decoded(item.2.encoding()) == item.2
    }

    proof fn lemma_disassemble_types(item: Self::T) {
    }

    proof fn lemma_assemble_faults(cells: Seq<CellView>) {
        lemma_fault_kind(Self::types(), cells, Self::types().len());
    }

    proof fn lemma_assemble_fitting(cells: Seq<CellView>) {
        lemma_fitting_cells(Self::types(), cells, Self::types().len());
    }

    proof fn lemma_round_trip(item: Self::T) {
        Self::lemma_disassemble_types(item);
        lemma_fitting_cells(Self::types(), Self::disassemble(item), Self::types().len());
    }

    fn convert(items: Vec<&ValueCell>) -> (item: Result<Self::T, GraphError>) {
        check_identities(&items, &Self::needed_types())?;
        proof {
            lemma_no_fault(Self::types(), views_of_refs(items@), Self::types().len());
        }
        let t1 = items[0].extract::<T1>()?;
        let t2 = items[1].extract::<T2>()?;
        let t3 = items[2].extract::<T3>()?;
        Ok((t1, t2, t3))
    }

    fn convert_output(item: &Self::T) -> (cells: Vec<ValueCell>) {
        vec![ValueCell::new(&item.0), ValueCell::new(&item.1), ValueCell::new(&item.2)]
    }

    fn needed_types() -> (types: Vec<TypeIdentity>) {
        vec![T1::type_identity(), T2::type_identity(), T3::type_identity()]
    }
}

impl<T1: Payload, T2: Payload, T3: Payload, T4: Payload> InputOrOutput for (T1, T2, T3, T4) {
    type T = (T1, T2, T3, T4);

    open spec fn types() -> Seq<TypeIdentity> {
        seq![T1::identity(), T2::identity(), T3::identity(), T4::identity()]
    }

    open spec fn assemble(cells: Seq<CellView>) -> Result<Self::T, GraphError> {
        match first_fault(Self::types(), cells, Self::types().len()) {
            Some(fault) => Err(fault),
            None => Ok(
                (
                    ValueCell::payload_spec::<T1>(cells[0]),
                    ValueCell::payload_spec::<T2>(cells[1]),
                    ValueCell::payload_spec::<T3>(cells[2]),
                    ValueCell::payload_spec::<T4>(cells[3]),
                ),
            ),
        }
    }

    open spec fn disassemble(item: Self::T) -> Seq<CellView> {
        seq![
            ValueCell::of(item.0),
            ValueCell::of(item.1),
            ValueCell::of(item.2),
            ValueCell::of(item.3),
        ]
    }

    open spec fn comes_back(item: Self::T) -> bool {
        &&& T1::decoded(item.0.encoding()) == item.0
        &&& T2::decoded(item.1.encoding()) == item.1
        &&& T3::decoded(item.2.encoding()) == item.2
        &&& T4::decoded(item.3.encoding()) == item.3
    }

    proof fn lemma_disassemble_types(item: Self::T) {
    }

    proof fn lemma_assemble_faults(cells: Seq<CellView>) {
        lemma_fault_kind(Self::types(), cells, Self::types().len());
    }

    proof fn lemma_assemble_fitting(cells: Seq<CellView>) {
        lemma_fitting_cells(Self::types(), cells, Self::types().len());
    }

    proof fn lemma_round_trip(item: Self::T) {
        Self::lemma_disassemble_types(item);
        lemma_fitting_cells(Self::types(), Self::disassemble(item), Self::types().len());
    }

    fn convert(items: Vec<&ValueCell>) -> (item: Result<Self::T, GraphError>) {
        check_identities(&items, &Self::needed_types())?;
        proof {
            lemma_no_fault(Self::types(), views_of_refs(items@), Self::types().len());
        }
        let t1 = items[0].extract::<T1>()?;
        let t2 = items[1].extract::<T2>()?;
        let t3 = items[2].extract::<T3>()?;
        let t4 = items[3].extract::<T4>()?;
        Ok((t1, t2, t3, t4))
    }

    fn convert_output(item: &Self::T) -> (cells: Vec<ValueCell>) {
        vec![
            ValueCell::new(&item.0),
            ValueCell::new(&item.1),
            ValueCell::new(&item.2),
            ValueCell::new(&item.3),
        ]
    }

    fn needed_types() -> (types: Vec<TypeIdentity>) {
        vec![T1::type_identity(), T2::type_identity(), T3::type_identity(), T4::type_identity()]
    }
}

impl<
    T1: Payload,
    T2: Payload,
    T3: Payload,
    T4: Payload,
    T5: Payload,
> InputOrOutput for (
    T1,
    T2,
    T3,
    T4,
    T5,
) {
    type T = (T1, T2, T3, T4, T5);

    open spec fn types() -> Seq<TypeIdentity> {
        seq![T1::identity(), T2::identity(), T3::identity(), T4::identity(), T5::identity()]
    }

    open spec fn assemble(cells: Seq<CellView>) -> Result<Self::T, GraphError> {
        match first_fault(Self::types(), cells, Self::types().len()) {
            Some(fault) => Err(fault),
            None => Ok(
                (
                    ValueCell::payload_spec::<T1>(cells[0]),
                    ValueCell::payload_spec::<T2>(cells[1]),
                    ValueCell::payload_spec::<T3>(cells[2]),
                    ValueCell::payload_spec::<T4>(cells[3]),
                    ValueCell::payload_spec::<T5>(cells[4]),
                ),
            ),
        }
    }

    open spec fn disassemble(item: Self::T) -> Seq<CellView> {
        seq![
            ValueCell::of(item.0),
            ValueCell::of(item.1),
            ValueCell::of(item.2),
            ValueCell::of(item.3),
            ValueCell::of(item.4),
        ]
    }

    open spec fn comes_back(item: Self::T) -> bool {
        &&& T1::decoded(item.0.encoding()) == item.0
        &&& T2::decoded(item.1.encoding()) == item.1
        &&& T3::decoded(item.2.encoding()) == item.2
        &&& T4::decoded(item.3.encoding()) == item.3
        &&& T5::decoded(item.4.encoding()) == item.4
    }

    proof fn lemma_disassemble_types(item: Self::T) {
    }

    proof fn lemma_assemble_faults(cells: Seq<CellView>) {
        lemma_fault_kind(Self::types(), cells, Self::types().len());
    }

    proof fn lemma_assemble_fitting(cells: Seq<CellView>) {
        lemma_fitting_cells(Self::types(), cells, Self::types().len());
    }

    proof fn lemma_round_trip(item: Self::T) {
        Self::lemma_disassemble_types(item);
        lemma_fitting_cells(Self::types(), Self::disassemble(item), Self::types().len());
    }

    fn convert(items: Vec<&ValueCell>) -> (item: Result<Self::T, GraphError>) {
        check_identities(&items, &Self::needed_types())?;
        proof {
            lemma_no_fault(Self::types(), views_of_refs(items@), Self::types().len());
        }
        let t1 = items[0].extract::<T1>()?;
        let t2 = items[1].extract::<T2>()?;
        let t3 = items[2].extract::<T3>()?;
        let t4 = items[3].extract::<T4>()?;
        let t5 = items[4].extract::<T5>()?;
        Ok((t1, t2, t3, t4, t5))
    }

    fn convert_output(item: &Self::T) -> (cells: Vec<ValueCell>) {
        vec![
            ValueCell::new(&item.0),
            ValueCell::new(&item.1),
            ValueCell::new(&item.2),
            ValueCell::new(&item.3),
            ValueCell::new(&item.4),
        ]
    }

    fn needed_types() -> (types: Vec<TypeIdentity>) {
        vec![
            T1::type_identity(),
            T2::type_identity(),
            T3::type_identity(),
            T4::type_identity(),
            T5::type_identity(),
        ]
    }
}

impl<
    T1: Payload,
    T2: Payload,
    T3: Payload,
    T4: Payload,
    T5: Payload,
    T6: Payload,
> InputOrOutput for (
    T1,
    T2,
    T3,
    T4,
    T5,
    T6,
) {
    type T = (T1, T2, T3, T4, T5, T6);

    open spec fn types() -> Seq<TypeIdentity> {
        seq![
            T1::identity(),
            T2::identity(),
            T3::identity(),
            T4::identity(),
            T5::identity(),
            T6::identity(),
        ]
    }

    open spec fn assemble(cells: Seq<CellView>) -> Result<Self::T, GraphError> {
        match first_fault(Self::types(), cells, Self::types().len()) {
            Some(fault) => Err(fault),
            None => Ok(
                (
                    ValueCell::payload_spec::<T1>(cells[0]),
                    ValueCell::payload_spec::<T2>(cells[1]),
                    ValueCell::payload_spec::<T3>(cells[2]),
                    ValueCell::payload_spec::<T4>(cells[3]),
                    ValueCell::payload_spec::<T5>(cells[4]),
                    ValueCell::payload_spec::<T6>(cells[5]),
                ),
            ),
        }
    }

    open spec fn disassemble(item: Self::T) -> Seq<CellView> {
        seq![
            ValueCell::of(item.0),
            ValueCell::of(item.1),
            ValueCell::of(item.2),
            ValueCell::of(item.3),
            ValueCell::of(item.4),
            ValueCell::of(item.5),
        ]
    }

    open spec fn comes_back(item: Self::T) -> bool {
        &&& T1::decoded(item.0.encoding()) == item.0
        &&& T2::decoded(item.1.encoding()) == item.1
        &&& T3::decoded(item.2.encoding()) == item.2
        &&& T4::decoded(item.3.encoding()) == item.3
        &&& T5::decoded(item.4.encoding()) == item.4
        &&& T6::decoded(item.5.encoding()) == item.5
    }

    proof fn lemma_disassemble_types(item: Self::T) {
    }

    proof fn lemma_assemble_faults(cells: Seq<CellView>) {
        lemma_fault_kind(Self::types(), cells, Self::types().len());
    }

    proof fn lemma_assemble_fitting(cells: Seq<CellView>) {
        lemma_fitting_cells(Self::types(), cells, Self::types().len());
    }

    proof fn lemma_round_trip(item: Self::T) {
        Self::lemma_disassemble_types(item);
        lemma_fitting_cells(Self::types(), Self::disassemble(item), Self::types().len());
    }

    fn convert(items: Vec<&ValueCell>) -> (item: Result<Self::T, GraphError>) {
        check_identities(&items, &Self::needed_types())?;
        proof {
            lemma_no_fault(Self::types(), views_of_refs(items@), Self::types().len());
        }
        let t1 = items[0].extract::<T1>()?;
        let t2 = items[1].extract::<T2>()?;
        let t3 = items[2].extract::<T3>()?;
        let t4 = items[3].extract::<T4>()?;
        let t5 = items[4].extract::<T5>()?;
        let t6 = items[5].extract::<T6>()?;
        Ok((t1, t2, t3, t4, t5, t6))
    }

    fn convert_output(item: &Self::T) -> (cells: Vec<ValueCell>) {
        vec![
            ValueCell::new(&item.0),
            ValueCell::new(&item.1),
            ValueCell::new(&item.2),
            ValueCell::new(&item.3),
            ValueCell::new(&item.4),
            ValueCell::new(&item.5),
        ]
    }

    fn needed_types() -> (types: Vec<TypeIdentity>) {
        vec![
            T1::type_identity(),
            T2::type_identity(),
            T3::type_identity(),
            T4::type_identity(),
            T5::type_identity(),
            T6::type_identity(),
        ]
    }
}

impl<
    T1: Payload,
    T2: Payload,
    T3: Payload,
    T4: Payload,
    T5: Payload,
    T6: Payload,
    T7: Payload,
> InputOrOutput for (
    T1,
    T2,
    T3,
    T4,
    T5,
    T6,
    T7,
) {
    type T = (T1, T2, T3, T4, T5, T6, T7);

    open spec fn types() -> Seq<TypeIdentity> {
        seq![
            T1::identity(),
            T2::identity(),
            T3::identity(),
            T4::identity(),
            T5::identity(),
            T6::identity(),
            T7::identity(),
        ]
    }

    open spec fn assemble(cells: Seq<CellView>) -> Result<Self::T, GraphError> {
        match first_fault(Self::types(), cells, Self::types().len()) {
            Some(fault) => Err(fault),
            None => Ok(
                (
                    ValueCell::payload_spec::<T1>(cells[0]),
                    ValueCell::payload_spec::<T2>(cells[1]),
                    ValueCell::payload_spec::<T3>(cells[2]),
                    ValueCell::payload_spec::<T4>(cells[3]),
                    ValueCell::payload_spec::<T5>(cells[4]),
                    ValueCell::payload_spec::<T6>(cells[5]),
                    ValueCell::payload_spec::<T7>(cells[6]),
                ),
            ),
        }
    }

    open spec fn disassemble(item: Self::T) -> Seq<CellView> {
        seq![
            ValueCell::of(item.0),
            ValueCell::of(item.1),
            ValueCell::of(item.2),
            ValueCell::of(item.3),
            ValueCell::of(item.4),
            ValueCell::of(item.5),
            ValueCell::of(item.6),
        ]
    }

    open spec fn comes_back(item: Self::T) -> bool {
        &&& T1::decoded(item.0.encoding()) == item.0
        &&& T2::decoded(item.1.encoding()) == item.1
        &&& T3::decoded(item.2.encoding()) == item.2
        &&& T4::decoded(item.3.encoding()) == item.3
        &&& T5::decoded(item.4.encoding()) == item.4
        &&& T6::decoded(item.5.encoding()) == item.5
        &&& T7::decoded(item.6.encoding()) == item.6
    }

    proof fn lemma_disassemble_types(item: Self::T) {
    }

    proof fn lemma_assemble_faults(cells: Seq<CellView>) {
        lemma_fault_kind(Self::types(), cells, Self::types().len());
    }

    proof fn lemma_assemble_fitting(cells: Seq<CellView>) {
        lemma_fitting_cells(Self::types(), cells, Self::types().len());
    }

    proof fn lemma_round_trip(item: Self::T) {
        Self::lemma_disassemble_types(item);
        lemma_fitting_cells(Self::types(), Self::disassemble(item), Self::types().len());
    }

    fn convert(items: Vec<&ValueCell>) -> (item: Result<Self::T, GraphError>) {
        check_identities(&items, &Self::needed_types())?;
        proof {
            lemma_no_fault(Self::types(), views_of_refs(items@), Self::types().len());
        }
        let t1 = items[0].extract::<T1>()?;
        let t2 = items[1].extract::<T2>()?;
        let t3 = items[2].extract::<T3>()?;
        let t4 = items[3].extract::<T4>()?;
        let t5 = items[4].extract::<T5>()?;
        let t6 = items[5].extract::<T6>()?;
        let t7 = items[6].extract::<T7>()?;
        Ok((t1, t2, t3, t4, t5, t6, t7))
    }

    fn convert_output(item: &Self::T) -> (cells: Vec<ValueCell>) {
        vec![
            ValueCell::new(&item.0),
            ValueCell::new(&item.1),
            ValueCell::new(&item.2),
            ValueCell::new(&item.3),
            ValueCell::new(&item.4),
            ValueCell::new(&item.5),
            ValueCell::new(&item.6),
        ]
    }

    fn needed_types() -> (types: Vec<TypeIdentity>) {
        vec![
            T1::type_identity(),
            T2::type_identity(),
            T3::type_identity(),
            T4::type_identity(),
            T5::type_identity(),
            T6::type_identity(),
            T7::type_identity(),
        ]
    }
}

impl<
    T1: Payload,
    T2: Payload,
    T3: Payload,
    T4: Payload,
    T5: Payload,
    T6: Payload,
    T7: Payload,
    T8: Payload,
> InputOrOutput for (
    T1,
    T2,
    T3,
    T4,
    T5,
    T6,
    T7,
    T8,
) {
    type T = (T1, T2, T3, T4, T5, T6, T7, T8);

    open spec fn types() -> Seq<TypeIdentity> {
        seq![
            T1::identity(),
            T2::identity(),
            T3::identity(),
            T4::identity(),
            T5::identity(),
            T6::identity(),
            T7::identity(),
            T8::identity(),
        ]
    }

    open spec fn assemble(cells: Seq<CellView>) -> Result<Self::T, GraphError> {
        match first_fault(Self::types(), cells, Self::types().len()) {
            Some(fault) => Err(fault),
            None => Ok(
                (
                    ValueCell::payload_spec::<T1>(cells[0]),
                    ValueCell::payload_spec::<T2>(cells[1]),
                    ValueCell::payload_spec::<T3>(cells[2]),
                    ValueCell::payload_spec::<T4>(cells[3]),
                    ValueCell::payload_spec::<T5>(cells[4]),
                    ValueCell::payload_spec::<T6>(cells[5]),
                    ValueCell::payload_spec::<T7>(cells[6]),
                    ValueCell::payload_spec::<T8>(cells[7]),
                ),
            ),
        }
    }

    open spec fn disassemble(item: Self::T) -> Seq<CellView> {
        seq![
            ValueCell::of(item.0),
            ValueCell::of(item.1),
            ValueCell::of(item.2),
            ValueCell::of(item.3),
            ValueCell::of(item.4),
            ValueCell::of(item.5),
            ValueCell::of(item.6),
            ValueCell::of(item.7),
        ]
    }

    open spec fn comes_back(item: Self::T) -> bool {
        &&& T1::decoded(item.0.encoding()) == item.0
        &&& T2::decoded(item.1.encoding()) == item.1
        &&& T3::decoded(item.2.encoding()) == item.2
        &&& T4::decoded(item.3.encoding()) == item.3
        &&& T5::decoded(item.4.encoding()) == item.4
        &&& T6::decoded(item.5.encoding()) == item.5
        &&& T7::decoded(item.6.encoding()) == item.6
        &&& T8::decoded(item.7.encoding()) == item.7
    }

    proof fn lemma_disassemble_types(item: Self::T) {
    }

    proof fn lemma_assemble_faults(cells: Seq<CellView>) {
        lemma_fault_kind(Self::types(), cells, Self::types().len());
    }

    proof fn lemma_assemble_fitting(cells: Seq<CellView>) {
        lemma_fitting_cells(Self::types(), cells, Self::types().len());
    }

    proof fn lemma_round_trip(item: Self::T) {
        Self::lemma_disassemble_types(item);
        lemma_fitting_cells(Self::types(), Self::disassemble(item), Self::types().len());
    }

    fn convert(items: Vec<&ValueCell>) -> (item: Result<Self::T, GraphError>) {
        check_identities(&items, &Self::needed_types())?;
        proof {
            lemma_no_fault(Self::types(), views_of_refs(items@), Self::types().len());
        }
        let t1 = items[0].extract::<T1>()?;
        let t2 = items[1].extract::<T2>()?;
        let t3 = items[2].extract::<T3>()?;
        let t4 = items[3].extract::<T4>()?;
        let t5 = items[4].extract::<T5>()?;
        let t6 = items[5].extract::<T6>()?;
        let t7 = items[6].extract::<T7>()?;
        let t8 = items[7].extract::<T8>()?;
        Ok((t1, t2, t3, t4, t5, t6, t7, t8))
    }

    fn convert_output(item: &Self::T) -> (cells: Vec<ValueCell>) {
        vec![
            ValueCell::new(&item.0),
            ValueCell::new(&item.1),
            ValueCell::new(&item.2),
            ValueCell::new(&item.3),
            ValueCell::new(&item.4),
            ValueCell::new(&item.5),
            ValueCell::new(&item.6),
            ValueCell::new(&item.7),
        ]
    }

    fn needed_types() -> (types: Vec<TypeIdentity>) {
        vec![
            T1::type_identity(),
            T2::type_identity(),
            T3::type_identity(),
            T4::type_identity(),
            T5::type_identity(),
            T6::type_identity(),
            T7::type_identity(),
            T8::type_identity(),
        ]
    }
}

impl<
    T1: Payload,
    T2: Payload,
    T3: Payload,
    T4: Payload,
    T5: Payload,
    T6: Payload,
    T7: Payload,
    T8: Payload,
    T9: Payload,
> InputOrOutput for (
    T1,
    T2,
    T3,
    T4,
    T5,
    T6,
    T7,
    T8,
    T9,
) {
    type T = (T1, T2, T3, T4, T5, T6, T7, T8, T9);

    open spec fn types() -> Seq<TypeIdentity> {
        seq![
            T1::identity(),
            T2::identity(),
            T3::identity(),
            T4::identity(),
            T5::identity(),
            T6::identity(),
            T7::identity(),
            T8::identity(),
            T9::identity(),
        ]
    }

    open spec fn assemble(cells: Seq<CellView>) -> Result<Self::T, GraphError> {
        match first_fault(Self::types(), cells, Self::types().len()) {
            Some(fault) => Err(fault),
            None => Ok(
                (
                    ValueCell::payload_spec::<T1>(cells[0]),
                    ValueCell::payload_spec::<T2>(cells[1]),
                    ValueCell::payload_spec::<T3>(cells[2]),
                    ValueCell::payload_spec::<T4>(cells[3]),
                    ValueCell::payload_spec::<T5>(cells[4]),
                    ValueCell::payload_spec::<T6>(cells[5]),
                    ValueCell::payload_spec::<T7>(cells[6]),
                    ValueCell::payload_spec::<T8>(cells[7]),
                    ValueCell::payload_spec::<T9>(cells[8]),
                ),
            ),
        }
    }

    open spec fn disassemble(item: Self::T) -> Seq<CellView> {
        seq![
            ValueCell::of(item.0),
            ValueCell::of(item.1),
            ValueCell::of(item.2),
            ValueCell::of(item.3),
            ValueCell::of(item.4),
            ValueCell::of(item.5),
            ValueCell::of(item.6),
            ValueCell::of(item.7),
            ValueCell::of(item.8),
        ]
    }

    open spec fn comes_back(item: Self::T) -> bool {
        &&& T1::decoded(item.0.encoding()) == item.0
        &&& T2::decoded(item.1.encoding()) == item.1
        &&& T3::decoded(item.2.encoding()) == item.2
        &&& T4::decoded(item.3.encoding()) == item.3
        &&& T5::decoded(item.4.encoding()) == item.4
        &&& T6::decoded(item.5.encoding()) == item.5
        &&& T7::decoded(item.6.encoding()) == item.6
        &&& T8::decoded(item.7.encoding()) == item.7
        &&& T9::decoded(item.8.encoding()) == item.8
    }

    proof fn lemma_disassemble_types(item: Self::T) {
    }

    proof fn lemma_assemble_faults(cells: Seq<CellView>) {
        lemma_fault_kind(Self::types(), cells, Self::types().len());
    }

    proof fn lemma_assemble_fitting(cells: Seq<CellView>) {
        lemma_fitting_cells(Self::types(), cells, Self::types().len());
    }

    proof fn lemma_round_trip(item: Self::T) {
        Self::lemma_disassemble_types(item);
        lemma_fitting_cells(Self::types(), Self::disassemble(item), Self::types().len());
    }

    fn convert(items: Vec<&ValueCell>) -> (item: Result<Self::T, GraphError>) {
        check_identities(&items, &Self::needed_types())?;
        proof {
            lemma_no_fault(Self::types(), views_of_refs(items@), Self::types().len());
        }
        let t1 = items[0].extract::<T1>()?;
        let t2 = items[1].extract::<T2>()?;
        let t3 = items[2].extract::<T3>()?;
        let t4 = items[3].extract::<T4>()?;
        let t5 = items[4].extract::<T5>()?;
        let t6 = items[5].extract::<T6>()?;
        let t7 = items[6].extract::<T7>()?;
        let t8 = items[7].extract::<T8>()?;
        let t9 = items[8].extract::<T9>()?;
        Ok((t1, t2, t3, t4, t5, t6, t7, t8, t9))
    }

    fn convert_output(item: &Self::T) -> (cells: Vec<ValueCell>) {
        vec![
            ValueCell::new(&item.0),
            ValueCell::new(&item.1),
            ValueCell::new(&item.2),
            ValueCell::new(&item.3),
            ValueCell::new(&item.4),
            ValueCell::new(&item.5),
            ValueCell::new(&item.6),
            ValueCell::new(&item.7),
            ValueCell::new(&item.8),
        ]
    }

    fn needed_types() -> (types: Vec<TypeIdentity>) {
        vec![
            T1::type_identity(),
            T2::type_identity(),
            T3::type_identity(),
            T4::type_identity(),
            T5::type_identity(),
            T6::type_identity(),
            T7::type_identity(),
            T8::type_identity(),
            T9::type_identity(),
        ]
    }
}

impl<
    T1: Payload,
    T2: Payload,
    T3: Payload,
    T4: Payload,
    T5: Payload,
    T6: Payload,
    T7: Payload,
    T8: Payload,
    T9: Payload,
    T10: Payload,
> InputOrOutput for (
    T1,
    T2,
    T3,
    T4,
    T5,
    T6,
    T7,
    T8,
    T9,
    T10,
) {
    type T = (T1, T2, T3, T4, T5, T6, T7, T8, T9, T10);

    open spec fn types() -> Seq<TypeIdentity> {
        seq![
            T1::identity(),
            T2::identity(),
            T3::identity(),
            T4::identity(),
            T5::identity(),
            T6::identity(),
            T7::identity(),
            T8::identity(),
            T9::identity(),
            T10::identity(),
        ]
    }

    open spec fn assemble(cells: Seq<CellView>) -> Result<Self::T, GraphError> {
        match first_fault(Self::types(), cells, Self::types().len()) {
            Some(fault) => Err(fault),
            None => Ok(
                (
                    ValueCell::payload_spec::<T1>(cells[0]),
                    ValueCell::payload_spec::<T2>(cells[1]),
                    ValueCell::payload_spec::<T3>(cells[2]),
                    ValueCell::payload_spec::<T4>(cells[3]),
                    ValueCell::payload_spec::<T5>(cells[4]),
                    ValueCell::payload_spec::<T6>(cells[5]),
                    ValueCell::payload_spec::<T7>(cells[6]),
                    ValueCell::payload_spec::<T8>(cells[7]),
                    ValueCell::payload_spec::<T9>(cells[8]),
                    ValueCell::payload_spec::<T10>(cells[9]),
                ),
            ),
        }
    }

    open spec fn disassemble(item: Self::T) -> Seq<CellView> {
        seq![
            ValueCell::of(item.0),
            ValueCell::of(item.1),
            ValueCell::of(item.2),
            ValueCell::of(item.3),
            ValueCell::of(item.4),
            ValueCell::of(item.5),
            ValueCell::of(item.6),
            ValueCell::of(item.7),
            ValueCell::of(item.8),
            ValueCell::of(item.9),
        ]
    }

    open spec fn comes_back(item: Self::T) -> bool {
        &&& T1::decoded(item.0.encoding()) == item.0
        &&& T2::decoded(item.1.encoding()) == item.1
        &&& T3::decoded(item.2.encoding()) == item.2
        &&& T4::decoded(item.3.encoding()) == item.3
        &&& T5::decoded(item.4.encoding()) == item.4
        &&& T6::decoded(item.5.encoding()) == item.5
        &&& T7::decoded(item.6.encoding()) == item.6
        &&& T8::decoded(item.7.encoding()) == item.7
        &&& T9::decoded(item.8.encoding()) == item.8
        &&& T10::decoded(item.9.encoding()) == item.9
    }

    proof fn lemma_disassemble_types(item: Self::T) {
    }

    proof fn lemma_assemble_faults(cells: Seq<CellView>) {
        lemma_fault_kind(Self::types(), cells, Self::types().len());
    }

    proof fn lemma_assemble_fitting(cells: Seq<CellView>) {
        lemma_fitting_cells(Self::types(), cells, Self::types().len());
    }

    proof fn lemma_round_trip(item: Self::T) {
        Self::lemma_disassemble_types(item);
        lemma_fitting_cells(Self::types(), Self::disassemble(item), Self::types().len());
    }

    fn convert(items: Vec<&ValueCell>) -> (item: Result<Self::T, GraphError>) {
        check_identities(&items, &Self::needed_types())?;
        proof {
            lemma_no_fault(Self::types(), views_of_refs(items@), Self::types().len());
        }
        let t1 = items[0].extract::<T1>()?;
        let t2 = items[1].extract::<T2>()?;
        let t3 = items[2].extract::<T3>()?;
        let t4 = items[3].extract::<T4>()?;
        let t5 = items[4].extract::<T5>()?;
        let t6 = items[5].extract::<T6>()?;
        let t7 = items[6].extract::<T7>()?;
        let t8 = items[7].extract::<T8>()?;
        let t9 = items[8].extract::<T9>()?;
        let t10 = items[9].extract::<T10>()?;
        Ok((t1, t2, t3, t4, t5, t6, t7, t8, t9, t10))
    }

    fn convert_output(item: &Self::T) -> (cells: Vec<ValueCell>) {
        vec![
            ValueCell::new(&item.0),
            ValueCell::new(&item.1),
            ValueCell::new(&item.2),
            ValueCell::new(&item.3),
            ValueCell::new(&item.4),
            ValueCell::new(&item.5),
            ValueCell::new(&item.6),
            ValueCell::new(&item.7),
            ValueCell::new(&item.8),
            ValueCell::new(&item.9),
        ]
    }

    fn needed_types() -> (types: Vec<TypeIdentity>) {
        vec![
            T1::type_identity(),
            T2::type_identity(),
            T3::type_identity(),
            T4::type_identity(),
            T5::type_identity(),
            T6::type_identity(),
            T7::type_identity(),
            T8::type_identity(),
            T9::type_identity(),
            T10::type_identity(),
        ]
    }
}

impl<
    T1: Payload,
    T2: Payload,
    T3: Payload,
    T4: Payload,
    T5: Payload,
    T6: Payload,
    T7: Payload,
    T8: Payload,
    T9: Payload,
    T10: Payload,
    T11: Payload,
> InputOrOutput for (
    T1,
    T2,
    T3,
    T4,
    T5,
    T6,
    T7,
    T8,
    T9,
    T10,
    T11,
) {
    type T = (T1, T2, T3, T4, T5, T6, T7, T8, T9, T10, T11);

    open spec fn types() -> Seq<TypeIdentity> {
        seq![
            T1::identity(),
            T2::identity(),
            T3::identity(),
            T4::identity(),
            T5::identity(),
            T6::identity(),
            T7::identity(),
            T8::identity(),
            T9::identity(),
            T10::identity(),
            T11::identity(),
        ]
    }

    open spec fn assemble(cells: Seq<CellView>) -> Result<Self::T, GraphError> {
        match first_fault(Self::types(), cells, Self::types().len()) {
            Some(fault) => Err(fault),
            None => Ok(
                (
                    ValueCell::payload_spec::<T1>(cells[0]),
                    ValueCell::payload_spec::<T2>(cells[1]),
                    ValueCell::payload_spec::<T3>(cells[2]),
                    ValueCell::payload_spec::<T4>(cells[3]),
                    ValueCell::payload_spec::<T5>(cells[4]),
                    ValueCell::payload_spec::<T6>(cells[5]),
                    ValueCell::payload_spec::<T7>(cells[6]),
                    ValueCell::payload_spec::<T8>(cells[7]),
                    ValueCell::payload_spec::<T9>(cells[8]),
                    ValueCell::payload_spec::<T10>(cells[9]),
                    ValueCell::payload_spec::<T11>(cells[10]),
                ),
            ),
        }
    }

    open spec fn disassemble(item: Self::T) -> Seq<CellView> {
        seq![
            ValueCell::of(item.0),
            ValueCell::of(item.1),
            ValueCell::of(item.2),
            ValueCell::of(item.3),
            ValueCell::of(item.4),
            ValueCell::of(item.5),
            ValueCell::of(item.6),
            ValueCell::of(item.7),
            ValueCell::of(item.8),
            ValueCell::of(item.9),
            ValueCell::of(item.10),
        ]
    }

    open spec fn comes_back(item: Self::T) -> bool {
        &&& T1::decoded(item.0.encoding()) == item.0
        &&& T2::decoded(item.1.encoding()) == item.1
        &&& T3::decoded(item.2.encoding()) == item.2
        &&& T4::decoded(item.3.encoding()) == item.3
        &&& T5::decoded(item.4.encoding()) == item.4
        &&& T6::decoded(item.5.encoding()) == item.5
        &&& T7::decoded(item.6.encoding()) == item.6
        &&& T8::decoded(item.7.encoding()) == item.7
        &&& T9::decoded(item.8.encoding()) == item.8
        &&& T10::decoded(item.9.encoding()) == item.9
        &&& T11::decoded(item.10.encoding()) == item.10
    }

    proof fn lemma_disassemble_types(item: Self::T) {
    }

    proof fn lemma_assemble_faults(cells: Seq<CellView>) {
        lemma_fault_kind(Self::types(), cells, Self::types().len());
    }

    proof fn lemma_assemble_fitting(cells: Seq<CellView>) {
        lemma_fitting_cells(Self::types(), cells, Self::types().len());
    }

    proof fn lemma_round_trip(item: Self::T) {
        Self::lemma_disassemble_types(item);
        lemma_fitting_cells(Self::types(), Self::disassemble(item), Self::types().len());
    }

    fn convert(items: Vec<&ValueCell>) -> (item: Result<Self::T, GraphError>) {
        check_identities(&items, &Self::needed_types())?;
        proof {
            lemma_no_fault(Self::types(), views_of_refs(items@), Self::types().len());
        }
        let t1 = items[0].extract::<T1>()?;
        let t2 = items[1].extract::<T2>()?;
        let t3 = items[2].extract::<T3>()?;
        let t4 = items[3].extract::<T4>()?;
        let t5 = items[4].extract::<T5>()?;
        let t6 = items[5].extract::<T6>()?;
        let t7 = items[6].extract::<T7>()?;
        let t8 = items[7].extract::<T8>()?;
        let t9 = items[8].extract::<T9>()?;
        let t10 = items[9].extract::<T10>()?;
        let t11 = items[10].extract::<T11>()?;
        Ok((t1, t2, t3, t4, t5, t6, t7, t8, t9, t10, t11))
    }

    fn convert_output(item: &Self::T) -> (cells: Vec<ValueCell>) {
        vec![
            ValueCell::new(&item.0),
            ValueCell::new(&item.1),
            ValueCell::new(&item.2),
            ValueCell::new(&item.3),
            ValueCell::new(&item.4),
            ValueCell::new(&item.5),
            ValueCell::new(&item.6),
            ValueCell::new(&item.7),
            ValueCell::new(&item.8),
            ValueCell::new(&item.9),
            ValueCell::new(&item.10),
        ]
    }

    fn needed_types() -> (types: Vec<TypeIdentity>) {
        vec![
            T1::type_identity(),
            T2::type_identity(),
            T3::type_identity(),
            T4::type_identity(),
            T5::type_identity(),
            T6::type_identity(),
            T7::type_identity(),
            T8::type_identity(),
            T9::type_identity(),
            T10::type_identity(),
            T11::type_identity(),
        ]
    }
}

impl<
    T1: Payload,
    T2: Payload,
    T3: Payload,
    T4: Payload,
    T5: Payload,
    T6: Payload,
    T7: Payload,
    T8: Payload,
    T9: Payload,
    T10: Payload,
    T11: Payload,
    T12: Payload,
> InputOrOutput for (
    T1,
    T2,
    T3,
    T4,
    T5,
    T6,
    T7,
    T8,
    T9,
    T10,
    T11,
    T12,
) {
    type T = (T1, T2, T3, T4, T5, T6, T7, T8, T9, T10, T11, T12);

    open spec fn types() -> Seq<TypeIdentity> {
        seq![
            T1::identity(),
            T2::identity(),
            T3::identity(),
            T4::identity(),
            T5::identity(),
            T6::identity(),
            T7::identity(),
            T8::identity(),
            T9::identity(),
            T10::identity(),
            T11::identity(),
            T12::identity(),
        ]
    }

    open spec fn assemble(cells: Seq<CellView>) -> Result<Self::T, GraphError> {
        match first_fault(Self::types(), cells, Self::types().len()) {
            Some(fault) => Err(fault),
            None => Ok(
                (
                    ValueCell::payload_spec::<T1>(cells[0]),
                    ValueCell::payload_spec::<T2>(cells[1]),
                    ValueCell::payload_spec::<T3>(cells[2]),
                    ValueCell::payload_spec::<T4>(cells[3]),
                    ValueCell::payload_spec::<T5>(cells[4]),
                    ValueCell::payload_spec::<T6>(cells[5]),
                    ValueCell::payload_spec::<T7>(cells[6]),
                    ValueCell::payload_spec::<T8>(cells[7]),
                    ValueCell::payload_spec::<T9>(cells[8]),
                    ValueCell::payload_spec::<T10>(cells[9]),
                    ValueCell::payload_spec::<T11>(cells[10]),
                    ValueCell::payload_spec::<T12>(cells[11]),
                ),
            ),
        }
    }

    open spec fn disassemble(item: Self::T) -> Seq<CellView> {
        seq![
            ValueCell::of(item.0),
            ValueCell::of(item.1),
            ValueCell::of(item.2),
            ValueCell::of(item.3),
            ValueCell::of(item.4),
            ValueCell::of(item.5),
            ValueCell::of(item.6),
            ValueCell::of(item.7),
            ValueCell::of(item.8),
            ValueCell::of(item.9),
            ValueCell::of(item.10),
            ValueCell::of(item.11),
        ]
    }

    open spec fn comes_back(item: Self::T) -> bool {
        &&& T1::decoded(item.0.encoding()) == item.0
        &&& T2::decoded(item.1.encoding()) == item.1
        &&& T3::decoded(item.2.encoding()) == item.2
        &&& T4::decoded(item.3.encoding()) == item.3
        &&& T5::decoded(item.4.encoding()) == item.4
        &&& T6::decoded(item.5.encoding()) == item.5
        &&& T7::decoded(item.6.encoding()) == item.6
        &&& T8::decoded(item.7.encoding()) == item.7
        &&& T9::decoded(item.8.encoding()) == item.8
        &&& T10::decoded(item.9.encoding()) == item.9
        &&& T11::decoded(item.10.encoding()) == item.10
        &&& T12::decoded(item.11.encoding()) == item.11
    }

    proof fn lemma_disassemble_types(item: Self::T) {
    }

    proof fn lemma_assemble_faults(cells: Seq<CellView>) {
        lemma_fault_kind(Self::types(), cells, Self::types().len());
    }

    proof fn lemma_assemble_fitting(cells: Seq<CellView>) {
        lemma_fitting_cells(Self::types(), cells, Self::types().len());
    }

    proof fn lemma_round_trip(item: Self::T) {
        Self::lemma_disassemble_types(item);
        lemma_fitting_cells(Self::types(), Self::disassemble(item), Self::types().len());
    }

    fn convert(items: Vec<&ValueCell>) -> (item: Result<Self::T, GraphError>) {
        check_identities(&items, &Self::needed_types())?;
        proof {
            lemma_no_fault(Self::types(), views_of_refs(items@), Self::types().len());
        }
        let t1 = items[0].extract::<T1>()?;
        let t2 = items[1].extract::<T2>()?;
        let t3 = items[2].extract::<T3>()?;
        let t4 = items[3].extract::<T4>()?;
        let t5 = items[4].extract::<T5>()?;
        let t6 = items[5].extract::<T6>()?;
        let t7 = items[6].extract::<T7>()?;
        let t8 = items[7].extract::<T8>()?;
        let t9 = items[8].extract::<T9>()?;
        let t10 = items[9].extract::<T10>()?;
        let t11 = items[10].extract::<T11>()?;
        let t12 = items[11].extract::<T12>()?;
        Ok((t1, t2, t3, t4, t5, t6, t7, t8, t9, t10, t11, t12))
    }

    fn convert_output(item: &Self::T) -> (cells: Vec<ValueCell>) {
        vec![
            ValueCell::new(&item.0),
            ValueCell::new(&item.1),
            ValueCell::new(&item.2),
            ValueCell::new(&item.3),
            ValueCell::new(&item.4),
            ValueCell::new(&item.5),
            ValueCell::new(&item.6),
            ValueCell::new(&item.7),
            ValueCell::new(&item.8),
            ValueCell::new(&item.9),
            ValueCell::new(&item.10),
            ValueCell::new(&item.11),
        ]
    }

    fn needed_types() -> (types: Vec<TypeIdentity>) {
        vec![
            T1::type_identity(),
            T2::type_identity(),
            T3::type_identity(),
            T4::type_identity(),
            T5::type_identity(),
            T6::type_identity(),
            T7::type_identity(),
            T8::type_identity(),
            T9::type_identity(),
            T10::type_identity(),
            T11::type_identity(),
            T12::type_identity(),
        ]
    }
}

impl<
    T1: Payload,
    T2: Payload,
    T3: Payload,
    T4: Payload,
    T5: Payload,
    T6: Payload,
    T7: Payload,
    T8: Payload,
    T9: Payload,
    T10: Payload,
    T11: Payload,
    T12: Payload,
    T13: Payload,
> InputOrOutput for (
    T1,
    T2,
    T3,
    T4,
    T5,
    T6,
    T7,
    T8,
    T9,
    T10,
    T11,
    T12,
    T13,
) {
    type T = (T1, T2, T3, T4, T5, T6, T7, T8, T9, T10, T11, T12, T13);

    open spec fn types() -> Seq<TypeIdentity> {
        seq![
            T1::identity(),
            T2::identity(),
            T3::identity(),
            T4::identity(),
            T5::identity(),
            T6::identity(),
            T7::identity(),
            T8::identity(),
            T9::identity(),
            T10::identity(),
            T11::identity(),
            T12::identity(),
            T13::identity(),
        ]
    }

    open spec fn assemble(cells: Seq<CellView>) -> Result<Self::T, GraphError> {
        match first_fault(Self::types(), cells, Self::types().len()) {
            Some(fault) => Err(fault),
            None => Ok(
                (
                    ValueCell::payload_spec::<T1>(cells[0]),
                    ValueCell::payload_spec::<T2>(cells[1]),
                    ValueCell::payload_spec::<T3>(cells[2]),
                    ValueCell::payload_spec::<T4>(cells[3]),
                    ValueCell::payload_spec::<T5>(cells[4]),
                    ValueCell::payload_spec::<T6>(cells[5]),
                    ValueCell::payload_spec::<T7>(cells[6]),
                    ValueCell::payload_spec::<T8>(cells[7]),
                    ValueCell::payload_spec::<T9>(cells[8]),
                    ValueCell::payload_spec::<T10>(cells[9]),
                    ValueCell::payload_spec::<T11>(cells[10]),
                    ValueCell::payload_spec::<T12>(cells[11]),
                    ValueCell::payload_spec::<T13>(cells[12]),
                ),
            ),
        }
    }

    open spec fn disassemble(item: Self::T) -> Seq<CellView> {
        seq![
            ValueCell::of(item.0),
            ValueCell::of(item.1),
            ValueCell::of(item.2),
            ValueCell::of(item.3),
            ValueCell::of(item.4),
            ValueCell::of(item.5),
            ValueCell::of(item.6),
            ValueCell::of(item.7),
            ValueCell::of(item.8),
            ValueCell::of(item.9),
            ValueCell::of(item.10),
            ValueCell::of(item.11),
            ValueCell::of(item.12),
        ]
    }

    open spec fn comes_back(item: Self::T) -> bool {
        &&& T1::decoded(item.0.encoding()) == item.0
        &&& T2::decoded(item.1.encoding()) == item.1
        &&& T3::decoded(item.2.encoding()) == item.2
        &&& T4::decoded(item.3.encoding()) == item.3
        &&& T5::decoded(item.4.encoding()) == item.4
        &&& T6::decoded(item.5.encoding()) == item.5
        &&& T7::decoded(item.6.encoding()) == item.6
        &&& T8::decoded(item.7.encoding()) == item.7
        &&& T9::decoded(item.8.encoding()) == item.8
        &&& T10::decoded(item.9.encoding()) == item.9
        &&& T11::decoded(item.10.encoding()) == item.10
        &&& T12::decoded(item.11.encoding()) == item.11
        &&& T13::decoded(item.12.encoding()) == item.12
    }

    proof fn lemma_disassemble_types(item: Self::T) {
    }

    proof fn lemma_assemble_faults(cells: Seq<CellView>) {
        lemma_fault_kind(Self::types(), cells, Self::types().len());
    }

    proof fn lemma_assemble_fitting(cells: Seq<CellView>) {
        lemma_fitting_cells(Self::types(), cells, Self::types().len());
    }

    proof fn lemma_round_trip(item: Self::T) {
        Self::lemma_disassemble_types(item);
        lemma_fitting_cells(Self::types(), Self::disassemble(item), Self::types().len());
    }

    fn convert(items: Vec<&ValueCell>) -> (item: Result<Self::T, GraphError>) {
        check_identities(&items, &Self::needed_types())?;
        proof {
            lemma_no_fault(Self::types(), views_of_refs(items@), Self::types().len());
        }
        let t1 = items[0].extract::<T1>()?;
        let t2 = items[1].extract::<T2>()?;
        let t3 = items[2].extract::<T3>()?;
        let t4 = items[3].extract::<T4>()?;
        let t5 = items[4].extract::<T5>()?;
        let t6 = items[5].extract::<T6>()?;
        let t7 = items[6].extract::<T7>()?;
        let t8 = items[7].extract::<T8>()?;
        let t9 = items[8].extract::<T9>()?;
        let t10 = items[9].extract::<T10>()?;
        let t11 = items[10].extract::<T11>()?;
        let t12 = items[11].extract::<T12>()?;
        let t13 = items[12].extract::<T13>()?;
        Ok((t1, t2, t3, t4, t5, t6, t7, t8, t9, t10, t11, t12, t13))
    }

    fn convert_output(item: &Self::T) -> (cells: Vec<ValueCell>) {
        vec![
            ValueCell::new(&item.0),
            ValueCell::new(&item.1),
            ValueCell::new(&item.2),
            ValueCell::new(&item.3),
            ValueCell::new(&item.4),
            ValueCell::new(&item.5),
            ValueCell::new(&item.6),
            ValueCell::new(&item.7),
            ValueCell::new(&item.8),
            ValueCell::new(&item.9),
            ValueCell::new(&item.10),
            ValueCell::new(&item.11),
            ValueCell::new(&item.12),
        ]
    }

    fn needed_types() -> (types: Vec<TypeIdentity>) {
        vec![
            T1::type_identity(),
            T2::type_identity(),
            T3::type_identity(),
            T4::type_identity(),
            T5::type_identity(),
            T6::type_identity(),
            T7::type_identity(),
            T8::type_identity(),
            T9::type_identity(),
            T10::type_identity(),
            T11::type_identity(),
            T12::type_identity(),
            T13::type_identity(),
        ]
    }
}

impl<
    T1: Payload,
    T2: Payload,
    T3: Payload,
    T4: Payload,
    T5: Payload,
    T6: Payload,
    T7: Payload,
    T8: Payload,
    T9: Payload,
    T10: Payload,
    T11: Payload,
    T12: Payload,
    T13: Payload,
    T14: Payload,
> InputOrOutput for (
    T1,
    T2,
    T3,
    T4,
    T5,
    T6,
    T7,
    T8,
    T9,
    T10,
    T11,
    T12,
    T13,
    T14,
) {
    type T = (T1, T2, T3, T4, T5, T6, T7, T8, T9, T10, T11, T12, T13, T14);

    open spec fn types() -> Seq<TypeIdentity> {
        seq![
            T1::identity(),
            T2::identity(),
            T3::identity(),
            T4::identity(),
            T5::identity(),
            T6::identity(),
            T7::identity(),
            T8::identity(),
            T9::identity(),
            T10::identity(),
            T11::identity(),
            T12::identity(),
            T13::identity(),
            T14::identity(),
        ]
    }

    open spec fn assemble(cells: Seq<CellView>) -> Result<Self::T, GraphError> {
        match first_fault(Self::types(), cells, Self::types().len()) {
            Some(fault) => Err(fault),
            None => Ok(
                (
                    ValueCell::payload_spec::<T1>(cells[0]),
                    ValueCell::payload_spec::<T2>(cells[1]),
                    ValueCell::payload_spec::<T3>(cells[2]),
                    ValueCell::payload_spec::<T4>(cells[3]),
                    ValueCell::payload_spec::<T5>(cells[4]),
                    ValueCell::payload_spec::<T6>(cells[5]),
                    ValueCell::payload_spec::<T7>(cells[6]),
                    ValueCell::payload_spec::<T8>(cells[7]),
                    ValueCell::payload_spec::<T9>(cells[8]),
                    ValueCell::payload_spec::<T10>(cells[9]),
                    ValueCell::payload_spec::<T11>(cells[10]),
                    ValueCell::payload_spec::<T12>(cells[11]),
                    ValueCell::payload_spec::<T13>(cells[12]),
                    ValueCell::payload_spec::<T14>(cells[13]),
                ),
            ),
        }
    }

    open spec fn disassemble(item: Self::T) -> Seq<CellView> {
        seq![
            ValueCell::of(item.0),
            ValueCell::of(item.1),
            ValueCell::of(item.2),
            ValueCell::of(item.3),
            ValueCell::of(item.4),
            ValueCell::of(item.5),
            ValueCell::of(item.6),
            ValueCell::of(item.7),
            ValueCell::of(item.8),
            ValueCell::of(item.9),
            ValueCell::of(item.10),
            ValueCell::of(item.11),
            ValueCell::of(item.12),
            ValueCell::of(item.13),
        ]
    }

    open spec fn comes_back(item: Self::T) -> bool {
        &&& T1::decoded(item.0.encoding()) == item.0
        &&& T2::decoded(item.1.encoding()) == item.1
        &&& T3::decoded(item.2.encoding()) == item.2
        &&& T4::decoded(item.3.encoding()) == item.3
        &&& T5::decoded(item.4.encoding()) == item.4
        &&& T6::decoded(item.5.encoding()) == item.5
        &&& T7::decoded(item.6.encoding()) == item.6
        &&& T8::decoded(item.7.encoding()) == item.7
        &&& T9::decoded(item.8.encoding()) == item.8
        &&& T10::decoded(item.9.encoding()) == item.9
        &&& T11::decoded(item.10.encoding()) == item.10
        &&& T12::decoded(item.11.encoding()) == item.11
        &&& T13::decoded(item.12.encoding()) == item.12
        &&& T14::decoded(item.13.encoding()) == item.13
    }

    proof fn lemma_disassemble_types(item: Self::T) {
    }

    proof fn lemma_assemble_faults(cells: Seq<CellView>) {
        lemma_fault_kind(Self::types(), cells, Self::types().len());
    }

    proof fn lemma_assemble_fitting(cells: Seq<CellView>) {
        lemma_fitting_cells(Self::types(), cells, Self::types().len());
    }

    proof fn lemma_round_trip(item: Self::T) {
        Self::lemma_disassemble_types(item);
        lemma_fitting_cells(Self::types(), Self::disassemble(item), Self::types().len());
    }

    fn convert(items: Vec<&ValueCell>) -> (item: Result<Self::T, GraphError>) {
        check_identities(&items, &Self::needed_types())?;
        proof {
            lemma_no_fault(Self::types(), views_of_refs(items@), Self::types().len());
        }
        let t1 = items[0].extract::<T1>()?;
        let t2 = items[1].extract::<T2>()?;
        let t3 = items[2].extract::<T3>()?;
        let t4 = items[3].extract::<T4>()?;
        let t5 = items[4].extract::<T5>()?;
        let t6 = items[5].extract::<T6>()?;
        let t7 = items[6].extract::<T7>()?;
        let t8 = items[7].extract::<T8>()?;
        let t9 = items[8].extract::<T9>()?;
        let t10 = items[9].extract::<T10>()?;
        let t11 = items[10].extract::<T11>()?;
        let t12 = items[11].extract::<T12>()?;
        let t13 = items[12].extract::<T13>()?;
        let t14 = items[13].extract::<T14>()?;
        Ok((t1, t2, t3, t4, t5, t6, t7, t8, t9, t10, t11, t12, t13, t14))
    }

    fn convert_output(item: &Self::T) -> (cells: Vec<ValueCell>) {
        vec![
            ValueCell::new(&item.0),
            ValueCell::new(&item.1),
            ValueCell::new(&item.2),
            ValueCell::new(&item.3),
            ValueCell::new(&item.4),
            ValueCell::new(&item.5),
            ValueCell::new(&item.6),
            ValueCell::new(&item.7),
            ValueCell::new(&item.8),
            ValueCell::new(&item.9),
            ValueCell::new(&item.10),
            ValueCell::new(&item.11),
            ValueCell::new(&item.12),
            ValueCell::new(&item.13),
        ]
    }

    fn needed_types() -> (types: Vec<TypeIdentity>) {
        vec![
            T1::type_identity(),
            T2::type_identity(),
            T3::type_identity(),
            T4::type_identity(),
            T5::type_identity(),
            T6::type_identity(),
            T7::type_identity(),
            T8::type_identity(),
            T9::type_identity(),
            T10::type_identity(),
            T11::type_identity(),
            T12::type_identity(),
            T13::type_identity(),
            T14::type_identity(),
        ]
    }
}

impl<
    T1: Payload,
    T2: Payload,
    T3: Payload,
    T4: Payload,
    T5: Payload,
    T6: Payload,
    T7: Payload,
    T8: Payload,
    T9: Payload,
    T10: Payload,
    T11: Payload,
    T12: Payload,
    T13: Payload,
    T14: Payload,
    T15: Payload,
> InputOrOutput for (
    T1,
    T2,
    T3,
    T4,
    T5,
    T6,
    T7,
    T8,
    T9,
    T10,
    T11,
    T12,
    T13,
    T14,
    T15,
) {
    type T = (T1, T2, T3, T4, T5, T6, T7, T8, T9, T10, T11, T12, T13, T14, T15);

    open spec fn types() -> Seq<TypeIdentity> {
        seq![
            T1::identity(),
            T2::identity(),
            T3::identity(),
            T4::identity(),
            T5::identity(),
            T6::identity(),
            T7::identity(),
            T8::identity(),
            T9::identity(),
            T10::identity(),
            T11::identity(),
            T12::identity(),
            T13::identity(),
            T14::identity(),
            T15::identity(),
        ]
    }

    open spec fn assemble(cells: Seq<CellView>) -> Result<Self::T, GraphError> {
        match first_fault(Self::types(), cells, Self::types().len()) {
            Some(fault) => Err(fault),
            None => Ok(
                (
                    ValueCell::payload_spec::<T1>(cells[0]),
                    ValueCell::payload_spec::<T2>(cells[1]),
                    ValueCell::payload_spec::<T3>(cells[2]),
                    ValueCell::payload_spec::<T4>(cells[3]),
                    ValueCell::payload_spec::<T5>(cells[4]),
                    ValueCell::payload_spec::<T6>(cells[5]),
                    ValueCell::payload_spec::<T7>(cells[6]),
                    ValueCell::payload_spec::<T8>(cells[7]),
                    ValueCell::payload_spec::<T9>(cells[8]),
                    ValueCell::payload_spec::<T10>(cells[9]),
                    ValueCell::payload_spec::<T11>(cells[10]),
                    ValueCell::payload_spec::<T12>(cells[11]),
                    ValueCell::payload_spec::<T13>(cells[12]),
                    ValueCell::payload_spec::<T14>(cells[13]),
                    ValueCell::payload_spec::<T15>(cells[14]),
                ),
            ),
        }
    }

    open spec fn disassemble(item: Self::T) -> Seq<CellView> {
        seq![
            ValueCell::of(item.0),
            ValueCell::of(item.1),
            ValueCell::of(item.2),
            ValueCell::of(item.3),
            ValueCell::of(item.4),
            ValueCell::of(item.5),
            ValueCell::of(item.6),
            ValueCell::of(item.7),
            ValueCell::of(item.8),
            ValueCell::of(item.9),
            ValueCell::of(item.10),
            ValueCell::of(item.11),
            ValueCell::of(item.12),
            ValueCell::of(item.13),
            ValueCell::of(item.14),
        ]
    }

    open spec fn comes_back(item: Self::T) -> bool {
        &&& T1::decoded(item.0.encoding()) == item.0
        &&& T2::decoded(item.1.encoding()) == item.1
        &&& T3::decoded(item.2.encoding()) == item.2
        &&& T4::decoded(item.3.encoding()) == item.3
        &&& T5::decoded(item.4.encoding()) == item.4
        &&& T6::decoded(item.5.encoding()) == item.5
        &&& T7::decoded(item.6.encoding()) == item.6
        &&& T8::decoded(item.7.encoding()) == item.7
        &&& T9::decoded(item.8.encoding()) == item.8
        &&& T10::decoded(item.9.encoding()) == item.9
        &&& T11::decoded(item.10.encoding()) == item.10
        &&& T12::decoded(item.11.encoding()) == item.11
        &&& T13::decoded(item.12.encoding()) == item.12
        &&& T14::decoded(item.13.encoding()) == item.13
        &&& T15::decoded(item.14.encoding()) == item.14
    }

    proof fn lemma_disassemble_types(item: Self::T) {
    }

    proof fn lemma_assemble_faults(cells: Seq<CellView>) {
        lemma_fault_kind(Self::types(), cells, Self::types().len());
    }

    proof fn lemma_assemble_fitting(cells: Seq<CellView>) {
        lemma_fitting_cells(Self::types(), cells, Self::types().len());
    }

    proof fn lemma_round_trip(item: Self::T) {
        Self::lemma_disassemble_types(item);
        lemma_fitting_cells(Self::types(), Self::disassemble(item), Self::types().len());
    }

    fn convert(items: Vec<&ValueCell>) -> (item: Result<Self::T, GraphError>) {
        check_identities(&items, &Self::needed_types())?;
        proof {
            lemma_no_fault(Self::types(), views_of_refs(items@), Self::types().len());
        }
        let t1 = items[0].extract::<T1>()?;
        let t2 = items[1].extract::<T2>()?;
        let t3 = items[2].extract::<T3>()?;
        let t4 = items[3].extract::<T4>()?;
        let t5 = items[4].extract::<T5>()?;
        let t6 = items[5].extract::<T6>()?;
        let t7 = items[6].extract::<T7>()?;
        let t8 = items[7].extract::<T8>()?;
        let t9 = items[8].extract::<T9>()?;
        let t10 = items[9].extract::<T10>()?;
        let t11 = items[10].extract::<T11>()?;
        let t12 = items[11].extract::<T12>()?;
        let t13 = items[12].extract::<T13>()?;
        let t14 = items[13].extract::<T14>()?;
        let t15 = items[14].extract::<T15>()?;
        Ok((t1, t2, t3, t4, t5, t6, t7, t8, t9, t10, t11, t12, t13, t14, t15))
    }

    fn convert_output(item: &Self::T) -> (cells: Vec<ValueCell>) {
        vec![
            ValueCell::new(&item.0),
            ValueCell::new(&item.1),
            ValueCell::new(&item.2),
            ValueCell::new(&item.3),
            ValueCell::new(&item.4),
            ValueCell::new(&item.5),
            ValueCell::new(&item.6),
            ValueCell::new(&item.7),
            ValueCell::new(&item.8),
            ValueCell::new(&item.9),
            ValueCell::new(&item.10),
            ValueCell::new(&item.11),
            ValueCell::new(&item.12),
            ValueCell::new(&item.13),
            ValueCell::new(&item.14),
        ]
    }

    fn needed_types() -> (types: Vec<TypeIdentity>) {
        vec![
            T1::type_identity(),
            T2::type_identity(),
            T3::type_identity(),
            T4::type_identity(),
            T5::type_identity(),
            T6::type_identity(),
            T7::type_identity(),
            T8::type_identity(),
            T9::type_identity(),
            T10::type_identity(),
            T11::type_identity(),
            T12::type_identity(),
            T13::type_identity(),
            T14::type_identity(),
            T15::type_identity(),
        ]
    }
}

impl<
    T1: Payload,
    T2: Payload,
    T3: Payload,
    T4: Payload,
    T5: Payload,
    T6: Payload,
    T7: Payload,
    T8: Payload,
    T9: Payload,
    T10: Payload,
    T11: Payload,
    T12: Payload,
    T13: Payload,
    T14: Payload,
    T15: Payload,
    T16: Payload,
> InputOrOutput for (
    T1,
    T2,
    T3,
    T4,
    T5,
    T6,
    T7,
    T8,
    T9,
    T10,
    T11,
    T12,
    T13,
    T14,
    T15,
    T16,
) {
    type T = (T1, T2, T3, T4, T5, T6, T7, T8, T9, T10, T11, T12, T13, T14, T15, T16);

    open spec fn types() -> Seq<TypeIdentity> {
        seq![
            T1::identity(),
            T2::identity(),
            T3::identity(),
            T4::identity(),
            T5::identity(),
            T6::identity(),
            T7::identity(),
            T8::identity(),
            T9::identity(),
            T10::identity(),
            T11::identity(),
            T12::identity(),
            T13::identity(),
            T14::identity(),
            T15::identity(),
            T16::identity(),
        ]
    }

    open spec fn assemble(cells: Seq<CellView>) -> Result<Self::T, GraphError> {
        match first_fault(Self::types(), cells, Self::types().len()) {
            Some(fault) => Err(fault),
            None => Ok(
                (
                    ValueCell::payload_spec::<T1>(cells[0]),
                    ValueCell::payload_spec::<T2>(cells[1]),
                    ValueCell::payload_spec::<T3>(cells[2]),
                    ValueCell::payload_spec::<T4>(cells[3]),
                    ValueCell::payload_spec::<T5>(cells[4]),
                    ValueCell::payload_spec::<T6>(cells[5]),
                    ValueCell::payload_spec::<T7>(cells[6]),
                    ValueCell::payload_spec::<T8>(cells[7]),
                    ValueCell::payload_spec::<T9>(cells[8]),
                    ValueCell::payload_spec::<T10>(cells[9]),
                    ValueCell::payload_spec::<T11>(cells[10]),
                    ValueCell::payload_spec::<T12>(cells[11]),
                    ValueCell::payload_spec::<T13>(cells[12]),
                    ValueCell::payload_spec::<T14>(cells[13]),
                    ValueCell::payload_spec::<T15>(cells[14]),
                    ValueCell::payload_spec::<T16>(cells[15]),
                ),
            ),
        }
    }

    open spec fn disassemble(item: Self::T) -> Seq<CellView> {
        seq![
            ValueCell::of(item.0),
            ValueCell::of(item.1),
            ValueCell::of(item.2),
            ValueCell::of(item.3),
            ValueCell::of(item.4),
            ValueCell::of(item.5),
            ValueCell::of(item.6),
            ValueCell::of(item.7),
            ValueCell::of(item.8),
            ValueCell::of(item.9),
            ValueCell::of(item.10),
            ValueCell::of(item.11),
            ValueCell::of(item.12),
            ValueCell::of(item.13),
            ValueCell::of(item.14),
            ValueCell::of(item.15),
        ]
    }

    open spec fn comes_back(item: Self::T) -> bool {
        &&& T1::decoded(item.0.encoding()) == item.0
        &&& T2::decoded(item.1.encoding()) == item.1
        &&& T3::decoded(item.2.encoding()) == item.2
        &&& T4::decoded(item.3.encoding()) == item.3
        &&& T5::decoded(item.4.encoding()) == item.4
        &&& T6::decoded(item.5.encoding()) == item.5
        &&& T7::decoded(item.6.encoding()) == item.6
        &&& T8::decoded(item.7.encoding()) == item.7
        &&& T9::decoded(item.8.encoding()) == item.8
        &&& T10::decoded(item.9.encoding()) == item.9
        &&& T11::decoded(item.10.encoding()) == item.10
        &&& T12::decoded(item.11.encoding()) == item.11
        &&& T13::decoded(item.12.encoding()) == item.12
        &&& T14::decoded(item.13.encoding()) == item.13
        &&& T15::decoded(item.14.encoding()) == item.14
        &&& T16::decoded(item.15.encoding()) == item.15
    }

    proof fn lemma_disassemble_types(item: Self::T) {
    }

    proof fn lemma_assemble_faults(cells: Seq<CellView>) {
        lemma_fault_kind(Self::types(), cells, Self::types().len());
    }

    proof fn lemma_assemble_fitting(cells: Seq<CellView>) {
        lemma_fitting_cells(Self::types(), cells, Self::types().len());
    }

    proof fn lemma_round_trip(item: Self::T) {
        Self::lemma_disassemble_types(item);
        lemma_fitting_cells(Self::types(), Self::disassemble(item), Self::types().len());
    }

    fn convert(items: Vec<&ValueCell>) -> (item: Result<Self::T, GraphError>) {
        check_identities(&items, &Self::needed_types())?;
        proof {
            lemma_no_fault(Self::types(), views_of_refs(items@), Self::types().len());
        }
        let t1 = items[0].extract::<T1>()?;
        let t2 = items[1].extract::<T2>()?;
        let t3 = items[2].extract::<T3>()?;
        let t4 = items[3].extract::<T4>()?;
        let t5 = items[4].extract::<T5>()?;
        let t6 = items[5].extract::<T6>()?;
        let t7 = items[6].extract::<T7>()?;
        let t8 = items[7].extract::<T8>()?;
        let t9 = items[8].extract::<T9>()?;
        let t10 = items[9].extract::<T10>()?;
        let t11 = items[10].extract::<T11>()?;
        let t12 = items[11].extract::<T12>()?;
        let t13 = items[12].extract::<T13>()?;
        let t14 = items[13].extract::<T14>()?;
        let t15 = items[14].extract::<T15>()?;
        let t16 = items[15].extract::<T16>()?;
        Ok((t1, t2, t3, t4, t5, t6, t7, t8, t9, t10, t11, t12, t13, t14, t15, t16))
    }

    fn convert_output(item: &Self::T) -> (cells: Vec<ValueCell>) {
        vec![
            ValueCell::new(&item.0),
            ValueCell::new(&item.1),
            ValueCell::new(&item.2),
            ValueCell::new(&item.3),
            ValueCell::new(&item.4),
            ValueCell::new(&item.5),
            ValueCell::new(&item.6),
            ValueCell::new(&item.7),
            ValueCell::new(&item.8),
            ValueCell::new(&item.9),
            ValueCell::new(&item.10),
            ValueCell::new(&item.11),
            ValueCell::new(&item.12),
            ValueCell::new(&item.13),
            ValueCell::new(&item.14),
            ValueCell::new(&item.15),
        ]
    }

    fn needed_types() -> (types: Vec<TypeIdentity>) {
        vec![
            T1::type_identity(),
            T2::type_identity(),
            T3::type_identity(),
            T4::type_identity(),
            T5::type_identity(),
            T6::type_identity(),
            T7::type_identity(),
            T8::type_identity(),
            T9::type_identity(),
            T10::type_identity(),
            T11::type_identity(),
            T12::type_identity(),
            T13::type_identity(),
            T14::type_identity(),
            T15::type_identity(),
            T16::type_identity(),
        ]
    }
}

impl<
    T1: Payload,
    T2: Payload,
    T3: Payload,
    T4: Payload,
    T5: Payload,
    T6: Payload,
    T7: Payload,
    T8: Payload,
    T9: Payload,
    T10: Payload,
    T11: Payload,
    T12: Payload,
    T13: Payload,
    T14: Payload,
    T15: Payload,
    T16: Payload,
    T17: Payload,
> InputOrOutput for (
    T1,
    T2,
    T3,
    T4,
    T5,
    T6,
    T7,
    T8,
    T9,
    T10,
    T11,
    T12,
    T13,
    T14,
    T15,
    T16,
    T17,
) {
    type T = (T1, T2, T3, T4, T5, T6, T7, T8, T9, T10, T11, T12, T13, T14, T15, T16, T17);

    open spec fn types() -> Seq<TypeIdentity> {
        seq![
            T1::identity(),
            T2::identity(),
            T3::identity(),
            T4::identity(),
            T5::identity(),
            T6::identity(),
            T7::identity(),
            T8::identity(),
            T9::identity(),
            T10::identity(),
            T11::identity(),
            T12::identity(),
            T13::identity(),
            T14::identity(),
            T15::identity(),
            T16::identity(),
            T17::identity(),
        ]
    }

    open spec fn assemble(cells: Seq<CellView>) -> Result<Self::T, GraphError> {
        match first_fault(Self::types(), cells, Self::types().len()) {
            Some(fault) => Err(fault),
            None => Ok(
                (
                    ValueCell::payload_spec::<T1>(cells[0]),
                    ValueCell::payload_spec::<T2>(cells[1]),
                    ValueCell::payload_spec::<T3>(cells[2]),
                    ValueCell::payload_spec::<T4>(cells[3]),
                    ValueCell::payload_spec::<T5>(cells[4]),
                    ValueCell::payload_spec::<T6>(cells[5]),
                    ValueCell::payload_spec::<T7>(cells[6]),
                    ValueCell::payload_spec::<T8>(cells[7]),
                    ValueCell::payload_spec::<T9>(cells[8]),
                    ValueCell::payload_spec::<T10>(cells[9]),
                    ValueCell::payload_spec::<T11>(cells[10]),
                    ValueCell::payload_spec::<T12>(cells[11]),
                    ValueCell::payload_spec::<T13>(cells[12]),
                    ValueCell::payload_spec::<T14>(cells[13]),
                    ValueCell::payload_spec::<T15>(cells[14]),
                    ValueCell::payload_spec::<T16>(cells[15]),
                    ValueCell::payload_spec::<T17>(cells[16]),
                ),
            ),
        }
    }

    open spec fn disassemble(item: Self::T) -> Seq<CellView> {
        seq![
            ValueCell::of(item.0),
            ValueCell::of(item.1),
            ValueCell::of(item.2),
            ValueCell::of(item.3),
            ValueCell::of(item.4),
            ValueCell::of(item.5),
            ValueCell::of(item.6),
            ValueCell::of(item.7),
            ValueCell::of(item.8),
            ValueCell::of(item.9),
            ValueCell::of(item.10),
            ValueCell::of(item.11),
            ValueCell::of(item.12),
            ValueCell::of(item.13),
            ValueCell::of(item.14),
            ValueCell::of(item.15),
            ValueCell::of(item.16),
        ]
    }

    open spec fn comes_back(item: Self::T) -> bool {
        &&& T1::decoded(item.0.encoding()) == item.0
        &&& T2::decoded(item.1.encoding()) == item.1
        &&& T3::decoded(item.2.encoding()) == item.2
        &&& T4::decoded(item.3.encoding()) == item.3
        &&& T5::decoded(item.4.encoding()) == item.4
        &&& T6::decoded(item.5.encoding()) == item.5
        &&& T7::decoded(item.6.encoding()) == item.6
        &&& T8::decoded(item.7.encoding()) == item.7
        &&& T9::decoded(item.8.encoding()) == item.8
        &&& T10::decoded(item.9.encoding()) == item.9
        &&& T11::decoded(item.10.encoding()) == item.10
        &&& T12::decoded(item.11.encoding()) == item.11
        &&& T13::decoded(item.12.encoding()) == item.12
        &&& T14::decoded(item.13.encoding()) == item.13
        &&& T15::decoded(item.14.encoding()) == item.14
        &&& T16::decoded(item.15.encoding()) == item.15
        &&& T17::decoded(item.16.encoding()) == item.16
    }

    proof fn lemma_disassemble_types(item: Self::T) {
    }

    proof fn lemma_assemble_faults(cells: Seq<CellView>) {
        lemma_fault_kind(Self::types(), cells, Self::types().len());
    }

    proof fn lemma_assemble_fitting(cells: Seq<CellView>) {
        lemma_fitting_cells(Self::types(), cells, Self::types().len());
    }

    proof fn lemma_round_trip(item: Self::T) {
        Self::lemma_disassemble_types(item);
        lemma_fitting_cells(Self::types(), Self::disassemble(item), Self::types().len());
    }

    fn convert(items: Vec<&ValueCell>) -> (item: Result<Self::T, GraphError>) {
        check_identities(&items, &Self::needed_types())?;
        proof {
            lemma_no_fault(Self::types(), views_of_refs(items@), Self::types().len());
        }
        let t1 = items[0].extract::<T1>()?;
        let t2 = items[1].extract::<T2>()?;
        let t3 = items[2].extract::<T3>()?;
        let t4 = items[3].extract::<T4>()?;
        let t5 = items[4].extract::<T5>()?;
        let t6 = items[5].extract::<T6>()?;
        let t7 = items[6].extract::<T7>()?;
        let t8 = items[7].extract::<T8>()?;
        let t9 = items[8].extract::<T9>()?;
        let t10 = items[9].extract::<T10>()?;
        let t11 = items[10].extract::<T11>()?;
        let t12 = items[11].extract::<T12>()?;
        let t13 = items[12].extract::<T13>()?;
        let t14 = items[13].extract::<T14>()?;
        let t15 = items[14].extract::<T15>()?;
        let t16 = items[15].extract::<T16>()?;
        let t17 = items[16].extract::<T17>()?;
        Ok((t1, t2, t3, t4, t5, t6, t7, t8, t9, t10, t11, t12, t13, t14, t15, t16, t17))
    }

    fn convert_output(item: &Self::T) -> (cells: Vec<ValueCell>) {
        vec![
            ValueCell::new(&item.0),
            ValueCell::new(&item.1),
            ValueCell::new(&item.2),
            ValueCell::new(&item.3),
            ValueCell::new(&item.4),
            ValueCell::new(&item.5),
            ValueCell::new(&item.6),
            ValueCell::new(&item.7),
            ValueCell::new(&item.8),
            ValueCell::new(&item.9),
            ValueCell::new(&item.10),
            ValueCell::new(&item.11),
            ValueCell::new(&item.12),
            ValueCell::new(&item.13),
            ValueCell::new(&item.14),
            ValueCell::new(&item.15),
            ValueCell::new(&item.16),
        ]
    }

    fn needed_types() -> (types: Vec<TypeIdentity>) {
        vec![
            T1::type_identity(),
            T2::type_identity(),
            T3::type_identity(),
            T4::type_identity(),
            T5::type_identity(),
            T6::type_identity(),
            T7::type_identity(),
            T8::type_identity(),
            T9::type_identity(),
            T10::type_identity(),
            T11::type_identity(),
            T12::type_identity(),
            T13::type_identity(),
            T14::type_identity(),
            T15::type_identity(),
            T16::type_identity(),
            T17::type_identity(),
        ]
    }
}

impl<
    T1: Payload,
    T2: Payload,
    T3: Payload,
    T4: Payload,
    T5: Payload,
    T6: Payload,
    T7: Payload,
    T8: Payload,
    T9: Payload,
    T10: Payload,
    T11: Payload,
    T12: Payload,
    T13: Payload,
    T14: Payload,
    T15: Payload,
    T16: Payload,
    T17: Payload,
    T18: Payload,
> InputOrOutput for (
    T1,
    T2,
    T3,
    T4,
    T5,
    T6,
    T7,
    T8,
    T9,
    T10,
    T11,
    T12,
    T13,
    T14,
    T15,
    T16,
    T17,
    T18,
) {
    type T = (T1, T2, T3, T4, T5, T6, T7, T8, T9, T10, T11, T12, T13, T14, T15, T16, T17, T18);

    open spec fn types() -> Seq<TypeIdentity> {
        seq![
            T1::identity(),
            T2::identity(),
            T3::identity(),
            T4::identity(),
            T5::identity(),
            T6::identity(),
            T7::identity(),
            T8::identity(),
            T9::identity(),
            T10::identity(),
            T11::identity(),
            T12::identity(),
            T13::identity(),
            T14::identity(),
            T15::identity(),
            T16::identity(),
            T17::identity(),
            T18::identity(),
        ]
    }

    open spec fn assemble(cells: Seq<CellView>) -> Result<Self::T, GraphError> {
        match first_fault(Self::types(), cells, Self::types().len()) {
            Some(fault) => Err(fault),
            None => Ok(
                (
                    ValueCell::payload_spec::<T1>(cells[0]),
                    ValueCell::payload_spec::<T2>(cells[1]),
                    ValueCell::payload_spec::<T3>(cells[2]),
                    ValueCell::payload_spec::<T4>(cells[3]),
                    ValueCell::payload_spec::<T5>(cells[4]),
                    ValueCell::payload_spec::<T6>(cells[5]),
                    ValueCell::payload_spec::<T7>(cells[6]),
                    ValueCell::payload_spec::<T8>(cells[7]),
                    ValueCell::payload_spec::<T9>(cells[8]),
                    ValueCell::payload_spec::<T10>(cells[9]),
                    ValueCell::payload_spec::<T11>(cells[10]),
                    ValueCell::payload_spec::<T12>(cells[11]),
                    ValueCell::payload_spec::<T13>(cells[12]),
                    ValueCell::payload_spec::<T14>(cells[13]),
                    ValueCell::payload_spec::<T15>(cells[14]),
                    ValueCell::payload_spec::<T16>(cells[15]),
                    ValueCell::payload_spec::<T17>(cells[16]),
                    ValueCell::payload_spec::<T18>(cells[17]),
                ),
            ),
        }
    }

    open spec fn disassemble(item: Self::T) -> Seq<CellView> {
        seq![
            ValueCell::of(item.0),
            ValueCell::of(item.1),
            ValueCell::of(item.2),
            ValueCell::of(item.3),
            ValueCell::of(item.4),
            ValueCell::of(item.5),
            ValueCell::of(item.6),
            ValueCell::of(item.7),
            ValueCell::of(item.8),
            ValueCell::of(item.9),
            ValueCell::of(item.10),
            ValueCell::of(item.11),
            ValueCell::of(item.12),
            ValueCell::of(item.13),
            ValueCell::of(item.14),
            ValueCell::of(item.15),
            ValueCell::of(item.16),
            ValueCell::of(item.17),
        ]
    }

    open spec fn comes_back(item: Self::T) -> bool {
        &&& T1::decoded(item.0.encoding()) == item.0
        &&& T2::decoded(item.1.encoding()) == item.1
        &&& T3::decoded(item.2.encoding()) == item.2
        &&& T4::decoded(item.3.encoding()) == item.3
        &&& T5::decoded(item.4.encoding()) == item.4
        &&& T6::decoded(item.5.encoding()) == item.5
        &&& T7::decoded(item.6.encoding()) == item.6
        &&& T8::decoded(item.7.encoding()) == item.7
        &&& T9::decoded(item.8.encoding()) == item.8
        &&& T10::decoded(item.9.encoding()) == item.9
        &&& T11::decoded(item.10.encoding()) == item.10
        &&& T12::decoded(item.11.encoding()) == item.11
        &&& T13::decoded(item.12.encoding()) == item.12
        &&& T14::decoded(item.13.encoding()) == item.13
        &&& T15::decoded(item.14.encoding()) == item.14
        &&& T16::decoded(item.15.encoding()) == item.15
        &&& T17::decoded(item.16.encoding()) == item.16
        &&& T18::decoded(item.17.encoding()) == item.17
    }

    proof fn lemma_disassemble_types(item: Self::T) {
    }

    proof fn lemma_assemble_faults(cells: Seq<CellView>) {
        lemma_fault_kind(Self::types(), cells, Self::types().len());
    }

    proof fn lemma_assemble_fitting(cells: Seq<CellView>) {
        lemma_fitting_cells(Self::types(), cells, Self::types().len());
    }

    proof fn lemma_round_trip(item: Self::T) {
        Self::lemma_disassemble_types(item);
        lemma_fitting_cells(Self::types(), Self::disassemble(item), Self::types().len());
    }

    fn convert(items: Vec<&ValueCell>) -> (item: Result<Self::T, GraphError>) {
        check_identities(&items, &Self::needed_types())?;
        proof {
            lemma_no_fault(Self::types(), views_of_refs(items@), Self::types().len());
        }
        let t1 = items[0].extract::<T1>()?;
        let t2 = items[1].extract::<T2>()?;
        let t3 = items[2].extract::<T3>()?;
        let t4 = items[3].extract::<T4>()?;
        let t5 = items[4].extract::<T5>()?;
        let t6 = items[5].extract::<T6>()?;
        let t7 = items[6].extract::<T7>()?;
        let t8 = items[7].extract::<T8>()?;
        let t9 = items[8].extract::<T9>()?;
        let t10 = items[9].extract::<T10>()?;
        let t11 = items[10].extract::<T11>()?;
        let t12 = items[11].extract::<T12>()?;
        let t13 = items[12].extract::<T13>()?;
        let t14 = items[13].extract::<T14>()?;
        let t15 = items[14].extract::<T15>()?;
        let t16 = items[15].extract::<T16>()?;
        let t17 = items[16].extract::<T17>()?;
        let t18 = items[17].extract::<T18>()?;
        Ok((t1, t2, t3, t4, t5, t6, t7, t8, t9, t10, t11, t12, t13, t14, t15, t16, t17, t18))
    }

    fn convert_output(item: &Self::T) -> (cells: Vec<ValueCell>) {
        vec![
            ValueCell::new(&item.0),
            ValueCell::new(&item.1),
            ValueCell::new(&item.2),
            ValueCell::new(&item.3),
            ValueCell::new(&item.4),
            ValueCell::new(&item.5),
            ValueCell::new(&item.6),
            ValueCell::new(&item.7),
            ValueCell::new(&item.8),
            ValueCell::new(&item.9),
            ValueCell::new(&item.10),
            ValueCell::new(&item.11),
            ValueCell::new(&item.12),
            ValueCell::new(&item.13),
            ValueCell::new(&item.14),
            ValueCell::new(&item.15),
            ValueCell::new(&item.16),
            ValueCell::new(&item.17),
        ]
    }

    fn needed_types() -> (types: Vec<TypeIdentity>) {
        vec![
            T1::type_identity(),
            T2::type_identity(),
            T3::type_identity(),
            T4::type_identity(),
            T5::type_identity(),
            T6::type_identity(),
            T7::type_identity(),
            T8::type_identity(),
            T9::type_identity(),
            T10::type_identity(),
            T11::type_identity(),
            T12::type_identity(),
            T13::type_identity(),
            T14::type_identity(),
            T15::type_identity(),
            T16::type_identity(),
            T17::type_identity(),
            T18::type_identity(),
        ]
    }
}

impl<
    T1: Payload,
    T2: Payload,
    T3: Payload,
    T4: Payload,
    T5: Payload,
    T6: Payload,
    T7: Payload,
    T8: Payload,
    T9: Payload,
    T10: Payload,
    T11: Payload,
    T12: Payload,
    T13: Payload,
    T14: Payload,
    T15: Payload,
    T16: Payload,
    T17: Payload,
    T18: Payload,
    T19: Payload,
> InputOrOutput for (
    T1,
    T2,
    T3,
    T4,
    T5,
    T6,
    T7,
    T8,
    T9,
    T10,
    T11,
    T12,
    T13,
    T14,
    T15,
    T16,
    T17,
    T18,
    T19,
) {
    type T = (T1, T2, T3, T4, T5, T6, T7, T8, T9, T10, T11, T12, T13, T14, T15, T16, T17, T18, T19);

    open spec fn types() -> Seq<TypeIdentity> {
        seq![
            T1::identity(),
            T2::identity(),
            T3::identity(),
            T4::identity(),
            T5::identity(),
            T6::identity(),
            T7::identity(),
            T8::identity(),
            T9::identity(),
            T10::identity(),
            T11::identity(),
            T12::identity(),
            T13::identity(),
            T14::identity(),
            T15::identity(),
            T16::identity(),
            T17::identity(),
            T18::identity(),
            T19::identity(),
        ]
    }

    open spec fn assemble(cells: Seq<CellView>) -> Result<Self::T, GraphError> {
        match first_fault(Self::types(), cells, Self::types().len()) {
            Some(fault) => Err(fault),
            None => Ok(
                (
                    ValueCell::payload_spec::<T1>(cells[0]),
                    ValueCell::payload_spec::<T2>(cells[1]),
                    ValueCell::payload_spec::<T3>(cells[2]),
                    ValueCell::payload_spec::<T4>(cells[3]),
                    ValueCell::payload_spec::<T5>(cells[4]),
                    ValueCell::payload_spec::<T6>(cells[5]),
                    ValueCell::payload_spec::<T7>(cells[6]),
                    ValueCell::payload_spec::<T8>(cells[7]),
                    ValueCell::payload_spec::<T9>(cells[8]),
                    ValueCell::payload_spec::<T10>(cells[9]),
                    ValueCell::payload_spec::<T11>(cells[10]),
                    ValueCell::payload_spec::<T12>(cells[11]),
                    ValueCell::payload_spec::<T13>(cells[12]),
                    ValueCell::payload_spec::<T14>(cells[13]),
                    ValueCell::payload_spec::<T15>(cells[14]),
                    ValueCell::payload_spec::<T16>(cells[15]),
                    ValueCell::payload_spec::<T17>(cells[16]),
                    ValueCell::payload_spec::<T18>(cells[17]),
                    ValueCell::payload_spec::<T19>(cells[18]),
                ),
            ),
        }
    }

    open spec fn disassemble(item: Self::T) -> Seq<CellView> {
        seq![
            ValueCell::of(item.0),
            ValueCell::of(item.1),
            ValueCell::of(item.2),
            ValueCell::of(item.3),
            ValueCell::of(item.4),
            ValueCell::of(item.5),
            ValueCell::of(item.6),
            ValueCell::of(item.7),
            ValueCell::of(item.8),
            ValueCell::of(item.9),
            ValueCell::of(item.10),
            ValueCell::of(item.11),
            ValueCell::of(item.12),
            ValueCell::of(item.13),
            ValueCell::of(item.14),
            ValueCell::of(item.15),
            ValueCell::of(item.16),
            ValueCell::of(item.17),
            ValueCell::of(item.18),
        ]
    }

    open spec fn comes_back(item: Self::T) -> bool {
        &&& T1::decoded(item.0.encoding()) == item.0
        &&& T2::decoded(item.1.encoding()) == item.1
        &&& T3::decoded(item.2.encoding()) == item.2
        &&& T4::decoded(item.3.encoding()) == item.3
        &&& T5::decoded(item.4.encoding()) == item.4
        &&& T6::decoded(item.5.encoding()) == item.5
        &&& T7::decoded(item.6.encoding()) == item.6
        &&& T8::decoded(item.7.encoding()) == item.7
        &&& T9::decoded(item.8.encoding()) == item.8
        &&& T10::decoded(item.9.encoding()) == item.9
        &&& T11::decoded(item.10.encoding()) == item.10
        &&& T12::decoded(item.11.encoding()) == item.11
        &&& T13::decoded(item.12.encoding()) == item.12
        &&& T14::decoded(item.13.encoding()) == item.13
        &&& T15::decoded(item.14.encoding()) == item.14
        &&& T16::decoded(item.15.encoding()) == item.15
        &&& T17::decoded(item.16.encoding()) == item.16
        &&& T18::decoded(item.17.encoding()) == item.17
        &&& T19::decoded(item.18.encoding()) == item.18
    }

    proof fn lemma_disassemble_types(item: Self::T) {
    }

    proof fn lemma_assemble_faults(cells: Seq<CellView>) {
        lemma_fault_kind(Self::types(), cells, Self::types().len());
    }

    proof fn lemma_assemble_fitting(cells: Seq<CellView>) {
        lemma_fitting_cells(Self::types(), cells, Self::types().len());
    }

    proof fn lemma_round_trip(item: Self::T) {
        Self::lemma_disassemble_types(item);
        lemma_fitting_cells(Self::types(), Self::disassemble(item), Self::types().len());
    }

    fn convert(items: Vec<&ValueCell>) -> (item: Result<Self::T, GraphError>) {
        check_identities(&items, &Self::needed_types())?;
        proof {
            lemma_no_fault(Self::types(), views_of_refs(items@), Self::types().len());
        }
        let t1 = items[0].extract::<T1>()?;
        let t2 = items[1].extract::<T2>()?;
        let t3 = items[2].extract::<T3>()?;
        let t4 = items[3].extract::<T4>()?;
        let t5 = items[4].extract::<T5>()?;
        let t6 = items[5].extract::<T6>()?;
        let t7 = items[6].extract::<T7>()?;
        let t8 = items[7].extract::<T8>()?;
        let t9 = items[8].extract::<T9>()?;
        let t10 = items[9].extract::<T10>()?;
        let t11 = items[10].extract::<T11>()?;
        let t12 = items[11].extract::<T12>()?;
        let t13 = items[12].extract::<T13>()?;
        let t14 = items[13].extract::<T14>()?;
        let t15 = items[14].extract::<T15>()?;
        let t16 = items[15].extract::<T16>()?;
        let t17 = items[16].extract::<T17>()?;
        let t18 = items[17].extract::<T18>()?;
        let t19 = items[18].extract::<T19>()?;
        Ok((t1, t2, t3, t4, t5, t6, t7, t8, t9, t10, t11, t12, t13, t14, t15, t16, t17, t18, t19))
    }

    fn convert_output(item: &Self::T) -> (cells: Vec<ValueCell>) {
        vec![
            ValueCell::new(&item.0),
            ValueCell::new(&item.1),
            ValueCell::new(&item.2),
            ValueCell::new(&item.3),
            ValueCell::new(&item.4),
            ValueCell::new(&item.5),
            ValueCell::new(&item.6),
            ValueCell::new(&item.7),
            ValueCell::new(&item.8),
            ValueCell::new(&item.9),
            ValueCell::new(&item.10),
            ValueCell::new(&item.11),
            ValueCell::new(&item.12),
            ValueCell::new(&item.13),
            ValueCell::new(&item.14),
            ValueCell::new(&item.15),
            ValueCell::new(&item.16),
            ValueCell::new(&item.17),
            ValueCell::new(&item.18),
        ]
    }

    fn needed_types() -> (types: Vec<TypeIdentity>) {
        vec![
            T1::type_identity(),
            T2::type_identity(),
            T3::type_identity(),
            T4::type_identity(),
            T5::type_identity(),
            T6::type_identity(),
            T7::type_identity(),
            T8::type_identity(),
            T9::type_identity(),
            T10::type_identity(),
            T11::type_identity(),
            T12::type_identity(),
            T13::type_identity(),
            T14::type_identity(),
            T15::type_identity(),
            T16::type_identity(),
            T17::type_identity(),
            T18::type_identity(),
            T19::type_identity(),
        ]
    }
}

impl<
    T1: Payload,
    T2: Payload,
    T3: Payload,
    T4: Payload,
    T5: Payload,
    T6: Payload,
    T7: Payload,
    T8: Payload,
    T9: Payload,
    T10: Payload,
    T11: Payload,
    T12: Payload,
    T13: Payload,
    T14: Payload,
    T15: Payload,
    T16: Payload,
    T17: Payload,
    T18: Payload,
    T19: Payload,
    T20: Payload,
> InputOrOutput for (
    T1,
    T2,
    T3,
    T4,
    T5,
    T6,
    T7,
    T8,
    T9,
    T10,
    T11,
    T12,
    T13,
    T14,
    T15,
    T16,
    T17,
    T18,
    T19,
    T20,
) {
    type T = (
        T1,
        T2,
        T3,
        T4,
        T5,
        T6,
        T7,
        T8,
        T9,
        T10,
        T11,
        T12,
        T13,
        T14,
        T15,
        T16,
        T17,
        T18,
        T19,
        T20,
    );

    open spec fn types() -> Seq<TypeIdentity> {
        seq![
            T1::identity(),
            T2::identity(),
            T3::identity(),
            T4::identity(),
            T5::identity(),
            T6::identity(),
            T7::identity(),
            T8::identity(),
            T9::identity(),
            T10::identity(),
            T11::identity(),
            T12::identity(),
            T13::identity(),
            T14::identity(),
            T15::identity(),
            T16::identity(),
            T17::identity(),
            T18::identity(),
            T19::identity(),
            T20::identity(),
        ]
    }

    open spec fn assemble(cells: Seq<CellView>) -> Result<Self::T, GraphError> {
        match first_fault(Self::types(), cells, Self::types().len()) {
            Some(fault) => Err(fault),
            None => Ok(
                (
                    ValueCell::payload_spec::<T1>(cells[0]),
                    ValueCell::payload_spec::<T2>(cells[1]),
                    ValueCell::payload_spec::<T3>(cells[2]),
                    ValueCell::payload_spec::<T4>(cells[3]),
                    ValueCell::payload_spec::<T5>(cells[4]),
                    ValueCell::payload_spec::<T6>(cells[5]),
                    ValueCell::payload_spec::<T7>(cells[6]),
                    ValueCell::payload_spec::<T8>(cells[7]),
                    ValueCell::payload_spec::<T9>(cells[8]),
                    ValueCell::payload_spec::<T10>(cells[9]),
                    ValueCell::payload_spec::<T11>(cells[10]),
                    ValueCell::payload_spec::<T12>(cells[11]),
                    ValueCell::payload_spec::<T13>(cells[12]),
                    ValueCell::payload_spec::<T14>(cells[13]),
                    ValueCell::payload_spec::<T15>(cells[14]),
                    ValueCell::payload_spec::<T16>(cells[15]),
                    ValueCell::payload_spec::<T17>(cells[16]),
                    ValueCell::payload_spec::<T18>(cells[17]),
                    ValueCell::payload_spec::<T19>(cells[18]),
                    ValueCell::payload_spec::<T20>(cells[19]),
                ),
            ),
        }
    }

    open spec fn disassemble(item: Self::T) -> Seq<CellView> {
        seq![
            ValueCell::of(item.0),
            ValueCell::of(item.1),
            ValueCell::of(item.2),
            ValueCell::of(item.3),
            ValueCell::of(item.4),
            ValueCell::of(item.5),
            ValueCell::of(item.6),
            ValueCell::of(item.7),
            ValueCell::of(item.8),
            ValueCell::of(item.9),
            ValueCell::of(item.10),
            ValueCell::of(item.11),
            ValueCell::of(item.12),
            ValueCell::of(item.13),
            ValueCell::of(item.14),
            ValueCell::of(item.15),
            ValueCell::of(item.16),
            ValueCell::of(item.17),
            ValueCell::of(item.18),
            ValueCell::of(item.19),
        ]
    }

    open spec fn comes_back(item: Self::T) -> bool {
        &&& T1::decoded(item.0.encoding()) == item.0
        &&& T2::decoded(item.1.encoding()) == item.1
        &&& T3::decoded(item.2.encoding()) == item.2
        &&& T4::decoded(item.3.encoding()) == item.3
        &&& T5::decoded(item.4.encoding()) == item.4
        &&& T6::decoded(item.5.encoding()) == item.5
        &&& T7::decoded(item.6.encoding()) == item.6
        &&& T8::decoded(item.7.encoding()) == item.7
        &&& T9::decoded(item.8.encoding()) == item.8
        &&& T10::decoded(item.9.encoding()) == item.9
        &&& T11::decoded(item.10.encoding()) == item.10
        &&& T12::decoded(item.11.encoding()) == item.11
        &&& T13::decoded(item.12.encoding()) == item.12
        &&& T14::decoded(item.13.encoding()) == item.13
        &&& T15::decoded(item.14.encoding()) == item.14
        &&& T16::decoded(item.15.encoding()) == item.15
        &&& T17::decoded(item.16.encoding()) == item.16
        &&& T18::decoded(item.17.encoding()) == item.17
        &&& T19::decoded(item.18.encoding()) == item.18
        &&& T20::decoded(item.19.encoding()) == item.19
    }

    proof fn lemma_disassemble_types(item: Self::T) {
    }

    proof fn lemma_assemble_faults(cells: Seq<CellView>) {
        lemma_fault_kind(Self::types(), cells, Self::types().len());
    }

    proof fn lemma_assemble_fitting(cells: Seq<CellView>) {
        lemma_fitting_cells(Self::types(), cells, Self::types().len());
    }

    proof fn lemma_round_trip(item: Self::T) {
        Self::lemma_disassemble_types(item);
        lemma_fitting_cells(Self::types(), Self::disassemble(item), Self::types().len());
    }

    fn convert(items: Vec<&ValueCell>) -> (item: Result<Self::T, GraphError>) {
        check_identities(&items, &Self::needed_types())?;
        proof {
            lemma_no_fault(Self::types(), views_of_refs(items@), Self::types().len());
        }
        let t1 = items[0].extract::<T1>()?;
        let t2 = items[1].extract::<T2>()?;
        let t3 = items[2].extract::<T3>()?;
        let t4 = items[3].extract::<T4>()?;
        let t5 = items[4].extract::<T5>()?;
        let t6 = items[5].extract::<T6>()?;
        let t7 = items[6].extract::<T7>()?;
        let t8 = items[7].extract::<T8>()?;
        let t9 = items[8].extract::<T9>()?;
        let t10 = items[9].extract::<T10>()?;
        let t11 = items[10].extract::<T11>()?;
        let t12 = items[11].extract::<T12>()?;
        let t13 = items[12].extract::<T13>()?;
        let t14 = items[13].extract::<T14>()?;
        let t15 = items[14].extract::<T15>()?;
        let t16 = items[15].extract::<T16>()?;
        let t17 = items[16].extract::<T17>()?;
        let t18 = items[17].extract::<T18>()?;
        let t19 = items[18].extract::<T19>()?;
        let t20 = items[19].extract::<T20>()?;
        Ok((
            t1,
            t2,
            t3,
            t4,
            t5,
            t6,
            t7,
            t8,
            t9,
            t10,
            t11,
            t12,
            t13,
            t14,
            t15,
            t16,
            t17,
            t18,
            t19,
            t20,
        ))
    }

    fn convert_output(item: &Self::T) -> (cells: Vec<ValueCell>) {
        vec![
            ValueCell::new(&item.0),
            ValueCell::new(&item.1),
            ValueCell::new(&item.2),
            ValueCell::new(&item.3),
            ValueCell::new(&item.4),
            ValueCell::new(&item.5),
            ValueCell::new(&item.6),
            ValueCell::new(&item.7),
            ValueCell::new(&item.8),
            ValueCell::new(&item.9),
            ValueCell::new(&item.10),
            ValueCell::new(&item.11),
            ValueCell::new(&item.12),
            ValueCell::new(&item.13),
            ValueCell::new(&item.14),
            ValueCell::new(&item.15),
            ValueCell::new(&item.16),
            ValueCell::new(&item.17),
            ValueCell::new(&item.18),
            ValueCell::new(&item.19),
        ]
    }

    fn needed_types() -> (types: Vec<TypeIdentity>) {
        vec![
            T1::type_identity(),
            T2::type_identity(),
            T3::type_identity(),
            T4::type_identity(),
            T5::type_identity(),
            T6::type_identity(),
            T7::type_identity(),
            T8::type_identity(),
            T9::type_identity(),
            T10::type_identity(),
            T11::type_identity(),
            T12::type_identity(),
            T13::type_identity(),
            T14::type_identity(),
            T15::type_identity(),
            T16::type_identity(),
            T17::type_identity(),
            T18::type_identity(),
            T19::type_identity(),
            T20::type_identity(),
        ]
    }
}


} // verus!
