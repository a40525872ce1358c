//! The tagged envelope codec.
//!
//! An envelope is a sequence of exactly two elements: the identifier of the
//! concrete type, then the payload. The structured format that carries the
//! elements is not this module's business. Its caller reads one element at a
//! time and hands over what the reader answered, as the reader's own
//! `Result<Option<_>, E>`: `Ok(None)` where the sequence has ended, `Err`
//! where an element could not be read as asked.
//!
//! Decoding goes through three steps, and each can only be reached from the
//! one before it:
//!
//! 1. [`identifier`] takes the first element and finds its descriptor in the
//!    registry;
//! 2. [`Tagged::payload`] takes the second element, which the caller has
//!    decoded with the routines of [`Tagged::descriptor`];
//! 3. [`Filled::end`] takes the answer to a probe for a third element, and
//!    gives the box only where there is none.

use crate::registry::Registry;
use crate::registry::TypeDescriptor;
use vstd::prelude::*;

verus! {

/// One value of a concrete type, known only through its capability `T`.
#[derive(Eq, PartialEq, Debug)]
pub struct SerdeBox<T: ?Sized>(pub Box<T>);

/// What a concrete type must offer to be written into an envelope.
///
/// The library believes each impl that `type_identifier` gives the
/// characters of `identifier_text`: an impl outside verified code is held to
/// that by nothing but its author.
pub trait SerdeBoxSer {
    /// The stable identifier of the concrete type of `self`, as characters:
    /// by convention the type's fully qualified name, and the key under
    /// which the type is registered.
    ///
    /// The default says nothing: an impl in verified code states its own.
    open spec fn identifier_text(&self) -> Seq<char> {
        arbitrary()
    }

    /// The stable identifier of the concrete type of `self`.
    fn type_identifier(&self) -> (name: &'static str)
        ensures
            name@ == self.identifier_text(),
    ;
}

/// The number of elements of an envelope.
pub const ENVELOPE_LEN: usize = 2;

/// The two elements of an envelope, in the order in which they are written.
pub struct Envelope<'a, T: ?Sized> {
    /// The identifier of the payload's concrete type.
    pub identifier: &'static str,
    /// The value that the underlying format encodes as the second element.
    pub payload: &'a T,
}

impl<'a, T: ?Sized> Envelope<'a, T> {
    /// The envelope of `payload`, tagged with `identifier`.
    pub fn new(identifier: &'static str, payload: &'a T) -> (envelope: Envelope<'a, T>)
        ensures
            envelope.identifier == identifier,
            envelope.payload == payload,
    {
        Envelope { identifier, payload }
    }
}

impl<T: ?Sized + SerdeBoxSer> SerdeBox<T> {
    /// The envelope of the boxed value: the identifier of its concrete
    /// type, and the value itself as the payload. No registry is asked: a
    /// value of an unregistered type gets its envelope like any other.
    pub fn envelope(&self) -> (envelope: Envelope<'_, T>)
        ensures
            envelope.identifier@ == self.0.identifier_text(),
            envelope.payload == self.0,
    {
        Envelope::new(self.0.type_identifier(), &*self.0)
    }
}

/// How an envelope departs from the shape `[identifier, payload]`.
#[derive(Debug, PartialEq, Eq)]
pub enum Defect<E> {
    /// The sequence holds this many elements instead of two. A count of `3`
    /// stands for every sequence longer than two.
    Arity(usize),
    /// An element was there, but the reader could not take it as the
    /// identifier, or could not tell whether the sequence ends after the
    /// payload. Carries the reader's error.
    Shape(E),
}

/// Why an envelope could not be decoded.
#[derive(Debug, PartialEq, Eq)]
pub enum DecodeError<E> {
    /// The identifier is not in the capability's registry.
    UnknownType(String),
    /// The envelope is not a sequence of an identifier and a payload.
    MalformedEnvelope(Defect<E>),
    /// The payload is not a value of the concrete type that the identifier
    /// names. Carries the reader's error.
    PayloadDecodeError(E),
}

/// What [`identifier`] makes of the first read.
pub open spec fn identifier_outcome<E>(
    registry: Map<Seq<char>, TypeDescriptor>,
    read: Result<Option<String>, E>,
) -> Result<TypeDescriptor, DecodeError<E>> {
    match read {
        Err(error) => Err(DecodeError::MalformedEnvelope(Defect::Shape(error))),
        Ok(None) => Err(DecodeError::MalformedEnvelope(Defect::Arity(0))),
        Ok(Some(name)) => if registry.contains_key(name@) {
            Ok(registry[name@])
        } else {
            Err(DecodeError::UnknownType(name))
        },
    }
}

/// What [`Tagged::payload`] makes of the second read.
pub open spec fn payload_outcome<T: ?Sized, E>(read: Result<Option<Box<T>>, E>) -> Result<
    Box<T>,
    DecodeError<E>,
> {
    match read {
        Err(error) => Err(DecodeError::PayloadDecodeError(error)),
        Ok(None) => Err(DecodeError::MalformedEnvelope(Defect::Arity(1))),
        Ok(Some(value)) => Ok(value),
    }
}

/// What [`Filled::end`] makes of the probe for a third element.
pub open spec fn end_outcome<T: ?Sized, E>(value: Box<T>, read: Result<Option<()>, E>) -> Result<
    SerdeBox<T>,
    DecodeError<E>,
> {
    match read {
        Err(error) => Err(DecodeError::MalformedEnvelope(Defect::Shape(error))),
        Ok(Some(_)) => Err(DecodeError::MalformedEnvelope(Defect::Arity(3))),
        Ok(None) => Ok(SerdeBox(value)),
    }
}

/// What a reader answers at the three positions of an envelope: to the read
/// of the identifier, to the read of the payload, and to the probe for a
/// third element.
pub struct Reads<T: ?Sized, E> {
    /// The first element, read as a string.
    pub identifier: Result<Option<String>, E>,
    /// The second element, decoded as the concrete type.
    pub payload: Result<Option<Box<T>>, E>,
    /// Whether a third element is there.
    pub end: Result<Option<()>, E>,
}

impl<T: ?Sized, E> Reads<T, E> {
    /// Whether these are the answers of a faithful reader on `envelope`: it
    /// reads the identifier as it was written, decodes the payload to the
    /// value that was encoded, and finds the sequence at its end after the
    /// two.
    pub open spec fn faithful(self, envelope: Envelope<T>) -> bool {
        &&& self.identifier matches Ok(Some(name)) && name@ == envelope.identifier@
        &&& self.payload matches Ok(Some(value)) && value == envelope.payload
        &&& self.end == Ok::<Option<()>, E>(None)
    }

    /// The number of elements that the reads show, `3` standing for every
    /// greater number: the reader answers `Ok(None)` exactly where the
    /// sequence has ended.
    pub open spec fn elements(self) -> nat {
        if self.identifier == Ok::<Option<String>, E>(None) {
            0
        } else if self.payload == Ok::<Option<Box<T>>, E>(None) {
            1
        } else if self.end == Ok::<Option<()>, E>(None) {
            2
        } else {
            3
        }
    }
}

/// What the three steps make of an envelope, taken one after the other: the
/// first failure, or the box.
pub open spec fn decode_outcome<T: ?Sized, E>(
    registry: Map<Seq<char>, TypeDescriptor>,
    reads: Reads<T, E>,
) -> Result<SerdeBox<T>, DecodeError<E>> {
    match identifier_outcome(registry, reads.identifier) {
        Err(error) => Err(error),
        Ok(_) => match payload_outcome(reads.payload) {
            Err(error) => Err(error),
            Ok(value) => end_outcome(value, reads.end),
        },
    }
}

/// A decoder that has read a registered identifier. Its view is the
/// descriptor that the registry holds for it.
pub struct Tagged {
    descriptor: TypeDescriptor,
}

/// A decoder that has read the identifier and the payload. Its view is the
/// decoded payload.
pub struct Filled<T: ?Sized> {
    value: Box<T>,
}

impl View for Tagged {
    type V = TypeDescriptor;

    closed spec fn view(&self) -> TypeDescriptor {
        self.descriptor
    }
}

impl<T: ?Sized> View for Filled<T> {
    type V = Box<T>;

    closed spec fn view(&self) -> Box<T> {
        self.value
    }
}

/// Takes the first element of an envelope, read as a string.
///
/// Goes on only with an identifier that `registry` knows. An identifier
/// that it does not know is `UnknownType`, whatever follows it; a missing
/// or unreadable first element is `MalformedEnvelope`.
pub fn identifier<E>(registry: &Registry, read: Result<Option<String>, E>) -> (next: Result<
    Tagged,
    DecodeError<E>,
>)
    ensures
        match identifier_outcome(registry@, read) {
            Ok(descriptor) => next matches Ok(tagged) && tagged@ == descriptor,
            Err(error) => next matches Err(e) && e == error,
        },
{
    match read {
        Err(error) => Err(DecodeError::MalformedEnvelope(Defect::Shape(error))),
        Ok(None) => Err(DecodeError::MalformedEnvelope(Defect::Arity(0))),
        Ok(Some(name)) => match registry.get(name.as_str()) {
            Some(descriptor) => Ok(Tagged { descriptor }),
            None => Err(DecodeError::UnknownType(name)),
        },
    }
}

impl Tagged {
    /// The descriptor with which the caller is to decode the payload.
    pub fn descriptor(&self) -> (descriptor: TypeDescriptor)
        ensures
            descriptor == self@,
    {
        self.descriptor
    }

    /// Takes the second element, decoded as the concrete type.
    ///
    /// A payload that failed to decode is `PayloadDecodeError`; a sequence
    /// that ended after the identifier is `MalformedEnvelope`.
    pub fn payload<T: ?Sized, E>(self, read: Result<Option<Box<T>>, E>) -> (next: Result<
        Filled<T>,
        DecodeError<E>,
    >)
        ensures
            match payload_outcome(read) {
                Ok(value) => next matches Ok(filled) && filled@ == value,
                Err(error) => next matches Err(e) && e == error,
            },
    {
        match read {
            Err(error) => Err(DecodeError::PayloadDecodeError(error)),
            Ok(None) => Err(DecodeError::MalformedEnvelope(Defect::Arity(1))),
            Ok(Some(value)) => Ok(Filled { value }),
        }
    }
}

impl<T: ?Sized> Filled<T> {
    /// Takes the answer to the probe for a third element.
    ///
    /// Gives the box where the sequence ends after the payload, and
    /// `MalformedEnvelope` where it does not.
    pub fn end<E>(self, read: Result<Option<()>, E>) -> (decoded: Result<
        SerdeBox<T>,
        DecodeError<E>,
    >)
        ensures
            decoded == end_outcome(self@, read),
    {
        match read {
            Err(error) => Err(DecodeError::MalformedEnvelope(Defect::Shape(error))),
            Ok(Some(_)) => Err(DecodeError::MalformedEnvelope(Defect::Arity(3))),
            Ok(None) => Ok(SerdeBox(self.value)),
        }
    }
}

/// The failure of one envelope in a sequence of envelopes.
#[derive(Debug, PartialEq, Eq)]
pub struct ElementError<E> {
    /// The position of the envelope in the sequence.
    pub index: usize,
    /// Why it could not be decoded.
    pub error: DecodeError<E>,
}

/// What a sequence of decoded envelopes comes to: all the boxes, in their
/// order, or the first failure with its position.
pub open spec fn collected<T: ?Sized, E>(results: Seq<Result<SerdeBox<T>, DecodeError<E>>>) -> Result<
    Seq<SerdeBox<T>>,
    ElementError<E>,
>
    decreases results.len(),
{
    if results.len() == 0 {
        Ok(Seq::empty())
    } else {
        match collected(results.drop_last()) {
            Err(failure) => Err(failure),
            Ok(boxes) => match results.last() {
                Ok(boxed) => Ok(boxes.push(boxed)),
                Err(error) => Err(ElementError { index: (results.len() - 1) as usize, error }),
            },
        }
    }
}

/// A failure among the first `n` results is the failure of the whole
/// sequence.
proof fn lemma_failure_stays<T: ?Sized, E>(results: Seq<Result<SerdeBox<T>, DecodeError<E>>>, n: int)
    requires
        0 <= n <= results.len(),
        collected(results.take(n)) is Err,
    ensures
        collected(results) == collected(results.take(n)),
    decreases results.len() - n,
{
    if n < results.len() {
        assert(results.take(n + 1).drop_last() =~= results.take(n));
        lemma_failure_stays(results, n + 1);
    } else {
        assert(results.take(n) =~= results);
    }
}

/// Gathers the boxes of a sequence of envelopes that were decoded one by one.
///
/// Gives every box, in the order of the envelopes, where all were decoded.
/// Otherwise gives the first failure and its position, and no box.
pub fn collect<T: ?Sized, E>(results: Vec<Result<SerdeBox<T>, DecodeError<E>>>) -> (gathered: Result<
    Vec<SerdeBox<T>>,
    ElementError<E>,
>)
    ensures
        match collected(results@) {
            Ok(boxes) => gathered matches Ok(found) && found@ == boxes,
            Err(failure) => gathered matches Err(first) && first == failure,
        },
{
    let ghost all = results@;
    let mut boxes: Vec<SerdeBox<T>> = Vec::new();
    for result in it: results
        invariant
            it.seq() == all,
            boxes@.len() == it.index(),
            collected(all.take(it.index() as int)) == Ok::<Seq<SerdeBox<T>>, ElementError<E>>(boxes@),
    {
        proof {
            let n = it.index() as int;
            assert(all.take(n + 1).drop_last() =~= all.take(n));
        }
        match result {
            Ok(boxed) => {
                boxes.push(boxed);
            },
            Err(error) => {
                proof {
                    lemma_failure_stays(all, it.index() as int + 1);
                }
                return Err(ElementError { index: boxes.len(), error });
            },
        }
    }
    assert(all.take(all.len() as int) =~= all);
    Ok(boxes)
}

/// Reading back what was written gives the box again: where `envelope` is
/// the envelope of `boxed`, the identifier of its concrete type is known to
/// the registry, and the reader is faithful, the envelope is decoded to
/// `boxed`.
pub proof fn lemma_round_trip<T: ?Sized + SerdeBoxSer, E>(
    registry: Map<Seq<char>, TypeDescriptor>,
    boxed: SerdeBox<T>,
    envelope: Envelope<T>,
    reads: Reads<T, E>,
)
    requires
        envelope.identifier@ == boxed.0.identifier_text(),
        envelope.payload == boxed.0,
        registry.contains_key(boxed.0.identifier_text()),
        reads.faithful(envelope),
    ensures
        decode_outcome(registry, reads) matches Ok(decoded) && decoded == boxed,
{
}

/// A value of a type that was never registered is encoded, and its envelope
/// is not decoded: where `envelope` is the envelope of `boxed` and the
/// registry does not know the identifier of its concrete type, a reader
/// that reads the identifier as it was written gets `UnknownType`, with
/// that identifier.
pub proof fn lemma_unregistered_type<T: ?Sized + SerdeBoxSer, E>(
    registry: Map<Seq<char>, TypeDescriptor>,
    boxed: SerdeBox<T>,
    envelope: Envelope<T>,
    reads: Reads<T, E>,
)
    requires
        envelope.identifier@ == boxed.0.identifier_text(),
        !registry.contains_key(boxed.0.identifier_text()),
        reads.identifier matches Ok(Some(name)) && name@ == envelope.identifier@,
    ensures
        decode_outcome(registry, reads) matches Err(DecodeError::UnknownType(name)) && name@
            == boxed.0.identifier_text(),
{
}

/// An envelope whose identifier the registry does not know is refused as
/// `UnknownType`, with that identifier, whatever its other elements are.
pub proof fn lemma_unknown_type<T: ?Sized, E>(
    registry: Map<Seq<char>, TypeDescriptor>,
    reads: Reads<T, E>,
    identifier: String,
)
    requires
        reads.identifier == Ok::<Option<String>, E>(Some(identifier)),
        !registry.contains_key(identifier@),
    ensures
        decode_outcome(registry, reads) matches Err(DecodeError::UnknownType(name)) && name
            == identifier,
{
}

/// An envelope of no, one, or more than two elements is refused as
/// `MalformedEnvelope`, and a defect of arity tells the number of elements.
///
/// This holds where no earlier step has refused the envelope for a reason of
/// its own: the identifier, if there is one, is known to the registry, and
/// the payload, if a third element follows it, was decoded.
pub proof fn lemma_arity<T: ?Sized, E>(registry: Map<Seq<char>, TypeDescriptor>, reads: Reads<T, E>)
    requires
        reads.elements() != 2,
        reads.identifier matches Ok(Some(name)) ==> registry.contains_key(name@),
        reads.elements() == 3 ==> reads.payload is Ok,
    ensures
        decode_outcome(registry, reads) matches Err(DecodeError::MalformedEnvelope(defect)) && (
        defect matches Defect::Arity(n) ==> n == reads.elements()),
{
}

/// What `collected` comes to, said without recursion: either every result
/// is a box and the boxes are these, one for one; or the failure is the
/// first one, at its position, and every result before it is a box.
pub proof fn lemma_collected<T: ?Sized, E>(results: Seq<Result<SerdeBox<T>, DecodeError<E>>>)
    requires
        results.len() <= usize::MAX,
    ensures
        match collected(results) {
            Ok(boxes) => {
                &&& boxes.len() == results.len()
                &&& forall|i: int|
                    0 <= i < results.len() ==> (#[trigger] results[i]) == Ok::<_, DecodeError<E>>(
                        boxes[i],
                    )
            },
            Err(failure) => {
                &&& failure.index < results.len()
                &&& results[failure.index as int] == Err::<SerdeBox<T>, _>(failure.error)
                &&& forall|i: int| 0 <= i < failure.index ==> (#[trigger] results[i]) is Ok
            },
        },
    decreases results.len(),
{
    if results.len() > 0 {
        let front = results.drop_last();
        lemma_collected(front);
        match collected(front) {
            Ok(boxes) => match results.last() {
                Ok(boxed) => {
                    let all = boxes.push(boxed);
                    assert forall|i: int| 0 <= i < results.len() implies (#[trigger] results[i])
                        == Ok::<_, DecodeError<E>>(all[i]) by {
                        if i < front.len() {
                            assert(front[i] == results[i]);
                        }
                    }
                },
                Err(_) => {
                    assert forall|i: int| 0 <= i < front.len() implies (#[trigger] results[i]) is Ok by {
                        assert(front[i] == results[i]);
                    }
                },
            },
            Err(failure) => {
                assert forall|i: int| 0 <= i < failure.index implies (#[trigger] results[i]) is Ok by {
                    assert(front[i] == results[i]);
                }
            },
        }
    }
}

/// What decoding gives for each envelope of a sequence, from the answers of
/// the reader on each.
pub open spec fn decoded_each<T: ?Sized, E>(
    registry: Map<Seq<char>, TypeDescriptor>,
    reads: Seq<Reads<T, E>>,
) -> Seq<Result<SerdeBox<T>, DecodeError<E>>> {
    Seq::new(reads.len(), |i: int| decode_outcome(registry, reads[i]))
}

/// A sequence of boxes survives the round trip: where each envelope is that
/// of the box at its place, with an identifier that the registry knows, and
/// the reader is faithful on each, decoding the envelopes one by one and
/// gathering the results gives the same boxes, as many and in the same
/// order.
pub proof fn lemma_sequence_round_trip<T: ?Sized + SerdeBoxSer, E>(
    registry: Map<Seq<char>, TypeDescriptor>,
    boxes: Seq<SerdeBox<T>>,
    envelopes: Seq<Envelope<T>>,
    reads: Seq<Reads<T, E>>,
)
    requires
        envelopes.len() == boxes.len(),
        reads.len() == boxes.len(),
        forall|i: int|
            0 <= i < boxes.len() ==> {
                &&& (#[trigger] envelopes[i]).identifier@ == boxes[i].0.identifier_text()
                &&& envelopes[i].payload == boxes[i].0
                &&& registry.contains_key(boxes[i].0.identifier_text())
                &&& reads[i].faithful(envelopes[i])
            },
    ensures
        collected(decoded_each(registry, reads)) matches Ok(decoded) && decoded == boxes,
    decreases boxes.len(),
{
    if boxes.len() > 0 {
        lemma_sequence_round_trip(
            registry,
            boxes.drop_last(),
            envelopes.drop_last(),
            reads.drop_last(),
        );
        assert(decoded_each(registry, reads).drop_last() =~= decoded_each(
            registry,
            reads.drop_last(),
        ));
        lemma_round_trip(registry, boxes.last(), envelopes.last(), reads.last());
    }
}

} // verus!
