//! The runtime's own representation of inference requests and results.
//!
//! Deliberately not any backend's wire format: an adapter translates between these
//! types and whatever its engine speaks.

use vstd::prelude::*;
use vstd::string::*;
use vstd::utf8::*;

use crate::text::{decimal, decimal_u64, put_between, same_words, texts, words_stay};

verus! {

/// An identifier for a task this build does not itself define, so that the runtime
/// is not limited to the model classes its authors anticipated.
#[derive(Debug, Clone, PartialEq, Eq, Hash, PartialOrd, Ord)]
pub struct TaskId(String);

impl View for TaskId {
    type V = Seq<char>;

    closed spec fn view(&self) -> Seq<char> {
        self.0@
    }
}

impl TaskId {
    pub fn new(value: &str) -> (id: Self)
        ensures
            id@ == value@,
    {
        TaskId(value.to_owned())
    }

    pub fn as_str(&self) -> (text: &str)
        ensures
            text@ == self@,
    {
        self.0.as_str()
    }

    pub fn to_string(&self) -> (text: String)
        ensures
            text@ == self@,
    {
        self.0.clone()
    }
}

/// What is being asked of a model. A variant exists only where something
/// implements it.
#[derive(Debug, Clone, PartialEq, Eq, Hash, PartialOrd, Ord)]
pub enum Task {
    /// Turn inputs into vectors.
    Embed,
    /// Continue a text input.
    GenerateText,
    /// A task named by a backend rather than by this crate.
    Custom(TaskId),
}

/// A task in words.
pub open spec fn task_text(task: &Task) -> Seq<char> {
    match task {
        Task::Embed => "embed"@,
        Task::GenerateText => "generate-text"@,
        Task::Custom(id) => "custom:"@ + id@,
    }
}

impl Task {
    pub fn to_string(&self) -> (text: String)
        ensures
            text@ == task_text(self),
            self is Embed ==> text@ == "embed"@,
            self is GenerateText ==> text@ == "generate-text"@,
            self matches Task::Custom(id) ==> text@ == "custom:"@ + id@,
    {
        match self {
            Task::Embed => "embed".to_owned(),
            Task::GenerateText => "generate-text".to_owned(),
            Task::Custom(id) => {
                let mut text = "custom:".to_owned();
                text.append(id.as_str());
                text
            },
        }
    }
}

/// A request to turn text into vectors.
#[derive(Debug, Clone, PartialEq, Eq)]
pub struct EmbedRequest {
    /// The inputs to embed, in order. One vector is expected per input.
    pub inputs: Vec<String>,
}

impl EmbedRequest {
    /// A request for a single input.
    pub fn single(input: &str) -> (request: Self)
        ensures
            texts(request.inputs@) == seq![input@],
    {
        let mut inputs: Vec<String> = Vec::new();
        inputs.push(input.to_owned());
        assert(texts(inputs@) =~= seq![input@]);
        EmbedRequest { inputs }
    }

    /// A request for several inputs.
    pub fn batch(inputs: &[&str]) -> (request: Self)
        ensures
            texts(request.inputs@) == inputs@.map_values(|input: &str| input@),
    {
        let mut owned: Vec<String> = Vec::new();
        let mut i: usize = 0;
        while i < inputs.len()
            invariant
                i <= inputs@.len(),
                owned@.len() == i,
                forall|j: int| 0 <= j < i ==> (#[trigger] owned@[j])@ == inputs@[j]@,
            decreases inputs@.len() - i,
        {
            owned.push(inputs[i].to_owned());
            i = i + 1;
        }
        assert(texts(owned@) =~= inputs@.map_values(|input: &str| input@));
        EmbedRequest { inputs: owned }
    }

    /// How many inputs were asked about.
    pub fn len(&self) -> (n: usize)
        ensures
            n == self.inputs@.len(),
    {
        self.inputs.len()
    }

    /// Whether there is nothing to do.
    pub fn is_empty(&self) -> (empty: bool)
        ensures
            empty == (self.inputs@.len() == 0),
    {
        self.inputs.is_empty()
    }
}

/// Whether the bits of a 32-bit float are those of a finite number: its exponent is
/// not all ones.
pub open spec fn finite_bits(bits: u32) -> bool {
    (bits / 0x80_0000) % 0x100 != 0xff
}

/// Whether the bits of a finite 32-bit float are those of a number below zero: its
/// sign is set and it is not zero.
pub open spec fn negative_bits(bits: u32) -> bool {
    bits > 0x8000_0000
}

/// A float is finite exactly when the bits of its exponent are not all set, and below
/// zero exactly when its sign is set and it is not zero.
pub proof fn the_bits_of_a_float_tell(bits: u32)
    ensures
        finite_bits(bits) <==> bits & 0x7f80_0000u32 != 0x7f80_0000u32,
        negative_bits(bits) <==> bits & 0x8000_0000u32 != 0 && bits & 0x7fff_ffffu32 != 0,
{
    assert((bits / 0x80_0000u32) % 0x100u32 == 0xffu32 <==> bits & 0x7f80_0000u32
        == 0x7f80_0000u32) by (bit_vector);
    assert(bits > 0x8000_0000u32 <==> bits & 0x8000_0000u32 != 0 && bits & 0x7fff_ffffu32 != 0)
        by (bit_vector);
}

/// One embedding, tied to the input it came from.
///
/// The index is carried rather than relying on position, so a batch response that
/// arrives out of order is still attributable. Components are 32-bit floats, held
/// by their bits.
#[derive(Debug, Clone, PartialEq)]
pub struct Embedding {
    pub index: usize,
    pub vector: Vec<u32>,
}

/// Whether every component of a vector is a usable number.
pub open spec fn all_finite(vector: Seq<u32>) -> bool {
    forall|i: int| 0 <= i < vector.len() ==> finite_bits(#[trigger] vector[i])
}

impl Embedding {
    /// How many components the vector has.
    pub fn dimension(&self) -> (n: usize)
        ensures
            n == self.vector@.len(),
    {
        self.vector.len()
    }

    /// Whether every component is a usable number.
    ///
    /// A vector with a non-finite value silently poisons any distance computed from
    /// it.
    pub fn is_finite(&self) -> (finite: bool)
        ensures
            finite == all_finite(self.vector@),
    {
        let mut i: usize = 0;
        while i < self.vector.len()
            invariant
                i <= self.vector@.len(),
                forall|j: int| 0 <= j < i ==> finite_bits(#[trigger] self.vector@[j]),
            decreases self.vector@.len() - i,
        {
            if (self.vector[i] / 0x80_0000) % 0x100 == 0xff {
                assert(!finite_bits(self.vector@[i as int]));
                return false;
            }
            i = i + 1;
        }
        true
    }
}

/// The result of an embedding request.
#[derive(Debug, Clone, PartialEq)]
pub struct EmbeddingResult {
    pub embeddings: Vec<Embedding>,
}

/// The dimension every vector has, when there is one.
pub open spec fn shared_dimension(embeddings: Seq<Embedding>) -> Option<nat> {
    if embeddings.len() > 0 && forall|i: int|
        0 <= i < embeddings.len() ==> (#[trigger] embeddings[i]).vector@.len()
            == embeddings[0].vector@.len() {
        Some(embeddings[0].vector@.len())
    } else {
        None
    }
}

/// Whether an embedding is the first one for an input.
pub open spec fn is_first_for(embeddings: Seq<Embedding>, index: usize, i: int) -> bool {
    &&& 0 <= i < embeddings.len()
    &&& embeddings[i].index == index
    &&& forall|j: int| 0 <= j < i ==> (#[trigger] embeddings[j]).index != index
}

impl EmbeddingResult {
    /// The embedding for a given input index.
    pub fn for_input(&self, index: usize) -> (found: Option<&Embedding>)
        ensures
            match found {
                Some(embedding) => exists|i: int|
                    #![trigger self.embeddings@[i]]
                    is_first_for(self.embeddings@, index, i) && *embedding
                        == self.embeddings@[i],
                None => forall|i: int|
                    0 <= i < self.embeddings@.len() ==> (#[trigger] self.embeddings@[i]).index
                        != index,
            },
            found matches Some(embedding) ==> embedding.index == index
                && self.embeddings@.contains(*embedding),
    {
        let mut i: usize = 0;
        while i < self.embeddings.len()
            invariant
                i <= self.embeddings@.len(),
                forall|j: int|
                    0 <= j < i ==> (#[trigger] self.embeddings@[j]).index != index,
            decreases self.embeddings@.len() - i,
        {
            if self.embeddings[i].index == index {
                assert(is_first_for(self.embeddings@, index, i as int));
                assert(self.embeddings@.contains(self.embeddings@[i as int]));
                return Some(&self.embeddings[i]);
            }
            i = i + 1;
        }
        None
    }

    /// The dimension shared by every embedding, when they agree.
    ///
    /// `None` for an empty result or one whose vectors disagree, which is itself a
    /// signal that the response should not be trusted.
    pub fn dimension(&self) -> (dimension: Option<usize>)
        ensures
            match dimension {
                Some(n) => shared_dimension(self.embeddings@) == Some(n as nat),
                None => shared_dimension(self.embeddings@) is None,
            },
    {
        if self.embeddings.len() == 0 {
            return None;
        }
        let first: usize = self.embeddings[0].dimension();
        let mut i: usize = 1;
        while i < self.embeddings.len()
            invariant
                1 <= i <= self.embeddings@.len(),
                first == self.embeddings@[0].vector@.len(),
                forall|j: int|
                    0 <= j < i ==> (#[trigger] self.embeddings@[j]).vector@.len() == first,
            decreases self.embeddings@.len() - i,
        {
            if self.embeddings[i].dimension() != first {
                return None;
            }
            i = i + 1;
        }
        Some(first)
    }
}

/// Why an embedding result cannot be trusted.
#[derive(Debug, Clone, PartialEq, Eq, Structural)]
pub enum ResultDefect {
    /// Fewer or more vectors than inputs.
    CountMismatch { expected: usize, actual: usize },
    /// A vector with no components.
    EmptyVector { index: usize },
    /// A vector containing a value that is not a usable number.
    NonFiniteValue { index: usize },
    /// Vectors of differing lengths in one response.
    InconsistentDimension,
    /// An input index that was never requested, or a duplicate.
    UnattributableIndex { index: usize },
}

/// A defect in words.
pub open spec fn defect_text(defect: ResultDefect) -> Seq<char> {
    match defect {
        ResultDefect::CountMismatch { expected, actual } => "expected "@ + decimal(
            expected as nat,
        ) + " embedding(s) for "@ + decimal(expected as nat) + " input(s), got "@ + decimal(
            actual as nat,
        ),
        ResultDefect::EmptyVector { index } => "the embedding for input "@ + decimal(
            index as nat,
        ) + " is empty"@,
        ResultDefect::NonFiniteValue { index } => "the embedding for input "@ + decimal(
            index as nat,
        ) + " contains a value that is not finite"@,
        ResultDefect::InconsistentDimension =>
            "the embeddings in one response have differing dimensions"@,
        ResultDefect::UnattributableIndex { index } =>
            "the response contains an unexpected or duplicate index "@ + decimal(index as nat),
    }
}

impl ResultDefect {
    pub fn to_string(&self) -> (text: String)
        ensures
            text@ == defect_text(*self),
    {
        match self {
            ResultDefect::CountMismatch { expected, actual } => {
                let mut text = "expected ".to_owned();
                text.append(decimal_u64(*expected as u64).as_str());
                text.append(" embedding(s) for ");
                text.append(decimal_u64(*expected as u64).as_str());
                text.append(" input(s), got ");
                text.append(decimal_u64(*actual as u64).as_str());
                text
            },
            ResultDefect::EmptyVector { index } => {
                let mut text = "the embedding for input ".to_owned();
                text.append(decimal_u64(*index as u64).as_str());
                text.append(" is empty");
                text
            },
            ResultDefect::NonFiniteValue { index } => {
                let mut text = "the embedding for input ".to_owned();
                text.append(decimal_u64(*index as u64).as_str());
                text.append(" contains a value that is not finite");
                text
            },
            ResultDefect::InconsistentDimension => {
                "the embeddings in one response have differing dimensions".to_owned()
            },
            ResultDefect::UnattributableIndex { index } => {
                let mut text =
                    "the response contains an unexpected or duplicate index ".to_owned();
                text.append(decimal_u64(*index as u64).as_str());
                text
            },
        }
    }
}

/// Whether one of the first `i` embeddings claims the index.
pub open spec fn claimed(embeddings: Seq<Embedding>, i: int, index: usize) -> bool {
    exists|j: int| 0 <= j < i && (#[trigger] embeddings[j]).index == index
}

/// What is wrong with the embedding at `i` of a response to `n` inputs.
pub open spec fn defect_at(embeddings: Seq<Embedding>, n: nat, i: int) -> Option<ResultDefect> {
    let e = embeddings[i];
    if e.index >= n || claimed(embeddings, i, e.index) {
        Some(ResultDefect::UnattributableIndex { index: e.index })
    } else if e.vector@.len() == 0 {
        Some(ResultDefect::EmptyVector { index: e.index })
    } else if !all_finite(e.vector@) {
        Some(ResultDefect::NonFiniteValue { index: e.index })
    } else {
        None
    }
}

/// The first thing wrong from position `i` on.
pub open spec fn first_defect(embeddings: Seq<Embedding>, n: nat, i: int) -> Option<ResultDefect>
    decreases embeddings.len() - i,
{
    if i >= embeddings.len() {
        None
    } else {
        match defect_at(embeddings, n, i) {
            Some(defect) => Some(defect),
            None => first_defect(embeddings, n, i + 1),
        }
    }
}

/// The first thing wrong with a response to `n` inputs.
pub open spec fn result_defect(n: usize, embeddings: Seq<Embedding>) -> Option<ResultDefect> {
    if embeddings.len() != n {
        Some(ResultDefect::CountMismatch { expected: n, actual: embeddings.len() as usize })
    } else {
        match first_defect(embeddings, n as nat, 0) {
            Some(defect) => Some(defect),
            None => if shared_dimension(embeddings) is None {
                Some(ResultDefect::InconsistentDimension)
            } else {
                None
            },
        }
    }
}

/// Checks that a result is structurally usable for the request that produced it.
///
/// Nothing here judges whether the numbers are any good, which is a question about
/// the model. The error is the first defect found.
pub fn validate(request: &EmbedRequest, result: &EmbeddingResult) -> (outcome: Result<
    (),
    ResultDefect,
>)
    ensures
        match outcome {
            Ok(()) => result_defect(request.inputs@.len() as usize, result.embeddings@) is None,
            Err(defect) => result_defect(request.inputs@.len() as usize, result.embeddings@)
                == Some(defect),
        },
{
    let n: usize = request.len();
    let count: usize = result.embeddings.len();
    if count != n {
        return Err(ResultDefect::CountMismatch { expected: n, actual: count });
    }
    let mut seen: Vec<bool> = Vec::new();
    let mut k: usize = 0;
    while k < n
        invariant
            k <= n,
            seen@.len() == k,
            forall|j: int| 0 <= j < k ==> !(#[trigger] seen@[j]),
        decreases n - k,
    {
        seen.push(false);
        k = k + 1;
    }
    let ghost embeddings = result.embeddings@;
    let mut i: usize = 0;
    while i < count
        invariant
            i <= count,
            count == n,
            n == request.inputs@.len(),
            embeddings == result.embeddings@,
            embeddings.len() == count,
            seen@.len() == n,
            forall|j: int|
                0 <= j < n ==> (#[trigger] seen@[j] <==> claimed(embeddings, i as int, j as usize)),
            first_defect(embeddings, n as nat, 0) == first_defect(
                embeddings,
                n as nat,
                i as int,
            ),
        decreases count - i,
    {
        let embedding = &result.embeddings[i];
        let index: usize = embedding.index;
        if index >= n {
            return Err(ResultDefect::UnattributableIndex { index });
        }
        if seen[index] {
            return Err(ResultDefect::UnattributableIndex { index });
        }
        let ghost before = seen@;
        seen.set(index, true);
        if embedding.vector.is_empty() {
            return Err(ResultDefect::EmptyVector { index });
        }
        if !embedding.is_finite() {
            return Err(ResultDefect::NonFiniteValue { index });
        }
        assert forall|j: int| 0 <= j < n implies (#[trigger] seen@[j] <==> claimed(
            embeddings,
            i + 1,
            j as usize,
        )) by {
            if j == index {
                assert(embeddings[i as int].index == j);
            } else {
                assert(seen@[j] == before[j]);
                if claimed(embeddings, i as int, j as usize) {
                    let w = choose|w: int|
                        0 <= w < i && (#[trigger] embeddings[w]).index == j as usize;
                    assert(embeddings[w].index == j);
                }
            }
        }
        i = i + 1;
    }
    if result.dimension().is_none() {
        return Err(ResultDefect::InconsistentDimension);
    }
    Ok(())
}

proof fn no_defect_anywhere(embeddings: Seq<Embedding>, n: nat, i: int)
    requires
        0 <= i,
        first_defect(embeddings, n, i) is None,
    ensures
        forall|k: int| i <= k < embeddings.len() ==> #[trigger] defect_at(embeddings, n, k) is None,
    decreases embeddings.len() - i,
{
    if i < embeddings.len() {
        no_defect_anywhere(embeddings, n, i + 1);
    }
}

/// A result that passes validation answers every input once, with a finite vector,
/// and all its vectors have one length.
pub proof fn a_valid_result_answers_every_input(n: usize, embeddings: Seq<Embedding>, input: usize)
    requires
        result_defect(n, embeddings) is None,
        input < n,
    ensures
        exists|i: int|
            {
                &&& #[trigger] is_first_for(embeddings, input, i)
                &&& all_finite(embeddings[i].vector@)
                &&& embeddings[i].vector@.len() > 0
                &&& shared_dimension(embeddings) == Some(embeddings[i].vector@.len())
                &&& forall|j: int|
                    0 <= j < embeddings.len() && j != i ==> (#[trigger] embeddings[j]).index
                        != input
            },
{
    no_defect_anywhere(embeddings, n as nat, 0);
    let indices = embeddings.map_values(|e: Embedding| e.index as int);
    assert forall|a: int, b: int| 0 <= a < indices.len() && 0 <= b < indices.len() && a
        != b implies indices[a] != indices[b] by {
        let (lo, hi) = if a < b {
            (a, b)
        } else {
            (b, a)
        };
        assert(defect_at(embeddings, n as nat, hi) is None);
        assert(embeddings[lo].index != embeddings[hi].index);
    }
    assert(indices.no_duplicates());
    indices.unique_seq_to_set();
    let all = vstd::set_lib::set_int_range(0, n as int);
    vstd::set_lib::lemma_int_range(0, n as int);
    assert(indices.to_set().subset_of(all)) by {
        assert forall|x: int| indices.to_set().contains(x) implies all.contains(x) by {
            let i = choose|i: int| 0 <= i < indices.len() && indices[i] == x;
            assert(defect_at(embeddings, n as nat, i) is None);
        }
    }
    vstd::set_lib::lemma_subset_equality(indices.to_set(), all);
    assert(all.contains(input as int));
    assert(indices.to_set().contains(input as int));
    let i = choose|i: int| 0 <= i < indices.len() && indices[i] == input as int;
    assert(defect_at(embeddings, n as nat, i) is None);
    assert forall|j: int| 0 <= j < embeddings.len() && j != i implies (
    #[trigger] embeddings[j]).index != input by {
        assert(indices[j] != indices[i]);
    }
    assert(is_first_for(embeddings, input, i));
}

proof fn nothing_wrong_from(embeddings: Seq<Embedding>, n: nat, i: int)
    requires
        0 <= i,
        forall|k: int| i <= k < embeddings.len() ==> #[trigger] defect_at(embeddings, n, k) is None,
    ensures
        first_defect(embeddings, n, i) is None,
    decreases embeddings.len() - i,
{
    if i < embeddings.len() {
        assert(defect_at(embeddings, n, i) is None);
        nothing_wrong_from(embeddings, n, i + 1);
    }
}

/// A result that answers every input once, with vectors of one length that are finite
/// and not empty, is found valid, in whatever order it gives them.
pub proof fn a_result_that_answers_every_input_is_valid(
    n: usize,
    embeddings: Seq<Embedding>,
    dimension: nat,
)
    requires
        0 < n == embeddings.len(),
        dimension > 0,
        forall|i: int|
            0 <= i < n ==> {
                &&& (#[trigger] embeddings[i]).index < n
                &&& embeddings[i].vector@.len() == dimension
                &&& forall|k: int|
                    0 <= k < dimension ==> #[trigger] embeddings[i].vector@[k] & 0x7f80_0000u32
                        != 0x7f80_0000u32
            },
        forall|i: int, j: int|
            0 <= i < j < n ==> (#[trigger] embeddings[i]).index != (#[trigger] embeddings[j]).index,
    ensures
        result_defect(n, embeddings) is None,
{
    assert forall|i: int| 0 <= i < embeddings.len() implies #[trigger] defect_at(
        embeddings,
        n as nat,
        i,
    ) is None by {
        assert(embeddings[i].index < n);
        if claimed(embeddings, i, embeddings[i].index) {
            let j = choose|j: int|
                0 <= j < i && (#[trigger] embeddings[j]).index == embeddings[i].index;
            assert(embeddings[j].index != embeddings[i].index);
        }
        assert forall|k: int| 0 <= k < embeddings[i].vector@.len() implies finite_bits(
            #[trigger] embeddings[i].vector@[k],
        ) by {
            the_bits_of_a_float_tell(embeddings[i].vector@[k]);
        }
    }
    nothing_wrong_from(embeddings, n as nat, 0);
    assert(embeddings[0].vector@.len() == dimension);
}

proof fn the_first_defect_is_somewhere(embeddings: Seq<Embedding>, n: nat, i: int)
    requires
        0 <= i,
        first_defect(embeddings, n, i) is Some,
    ensures
        exists|k: int|
            i <= k < embeddings.len() && #[trigger] defect_at(embeddings, n, k) == first_defect(
                embeddings,
                n,
                i,
            ),
    decreases embeddings.len() - i,
{
    if i < embeddings.len() && defect_at(embeddings, n, i) is None {
        the_first_defect_is_somewhere(embeddings, n, i + 1);
    } else if i < embeddings.len() {
        assert(defect_at(embeddings, n, i) == first_defect(embeddings, n, i));
    }
}

/// What is reported as wrong with a result is wrong with it: the counts do differ, the
/// index was not asked for or comes twice, the vector of that index is empty or holds a
/// value that is not finite, or the vectors have no common length.
pub proof fn a_reported_defect_is_there(n: usize, embeddings: Seq<Embedding>)
    requires
        embeddings.len() <= usize::MAX,
    ensures
        match result_defect(n, embeddings) {
            Some(ResultDefect::CountMismatch { expected, actual }) => expected == n && actual
                == embeddings.len() && expected != actual,
            Some(ResultDefect::UnattributableIndex { index }) => exists|i: int|
                0 <= i < embeddings.len() && (#[trigger] embeddings[i]).index == index && (index
                    >= n || exists|j: int| 0 <= j < i && (#[trigger] embeddings[j]).index
                    == index),
            Some(ResultDefect::EmptyVector { index }) => exists|i: int|
                0 <= i < embeddings.len() && (#[trigger] embeddings[i]).index == index
                    && embeddings[i].vector@.len() == 0,
            Some(ResultDefect::NonFiniteValue { index }) => exists|i: int, k: int|
                0 <= i < embeddings.len() && embeddings[i].index == index && 0 <= k
                    < embeddings[i].vector@.len() && #[trigger] embeddings[i].vector@[k]
                    & 0x7f80_0000u32 == 0x7f80_0000u32,
            Some(ResultDefect::InconsistentDimension) => embeddings.len() == 0 || exists|i: int|
                0 <= i < embeddings.len() && (#[trigger] embeddings[i]).vector@.len()
                    != embeddings[0].vector@.len(),
            None => embeddings.len() == n,
        },
{
    if embeddings.len() == n {
        if first_defect(embeddings, n as nat, 0) is Some {
            the_first_defect_is_somewhere(embeddings, n as nat, 0);
            let i = choose|k: int|
                0 <= k < embeddings.len() && #[trigger] defect_at(embeddings, n as nat, k)
                    == first_defect(embeddings, n as nat, 0);
            let e = embeddings[i];
            if e.index < n && !claimed(embeddings, i, e.index) && e.vector@.len() > 0 {
                let k = choose|k: int| 0 <= k < e.vector@.len() && !finite_bits(
                    #[trigger] e.vector@[k],
                );
                the_bits_of_a_float_tell(embeddings[i].vector@[k]);
                assert(embeddings[i].vector@[k] & 0x7f80_0000u32 == 0x7f80_0000u32);
            }
        }
    }
}

/// What a generation request is given to continue.
///
/// Continuation is the primitive: a base completion model has no notion of roles.
#[derive(Debug, Clone, PartialEq, Eq)]
pub enum TextInput {
    /// Text to continue, exactly as the model will see it.
    Continuation(String),
}

impl TextInput {
    pub open spec fn view(&self) -> Seq<char> {
        match self {
            TextInput::Continuation(text) => text@,
        }
    }

    /// The text as the backend will receive it.
    pub fn as_str(&self) -> (text: &str)
        ensures
            text@ == self@,
    {
        match self {
            TextInput::Continuation(text) => text.as_str(),
        }
    }
}

/// The most stop sequences a request may carry.
pub const MAX_STOP_SEQUENCES: usize = 8;

/// The most bytes any one stop sequence may be.
pub const MAX_STOP_SEQUENCE_BYTES: usize = 256;

/// A sampling temperature: a 32-bit float, held by its bits, and the decimal text
/// that shows it.
#[derive(Debug, Clone, PartialEq, Eq)]
pub struct Temperature {
    pub bits: u32,
    pub shown: String,
}

/// Portable generation controls.
///
/// `None` means the runtime did not override a control, not that it equals the
/// backend's current default.
#[derive(Debug, Clone, PartialEq, Eq)]
pub struct GenerationParameters {
    /// The most tokens to generate. Output only.
    pub max_output_tokens: Option<u32>,
    /// Sampling temperature. Zero requests the most deterministic sampling the
    /// backend offers.
    pub temperature: Option<Temperature>,
    /// A requested sampling seed. Repeatability is scoped to a backend build and
    /// its hardware.
    pub seed: Option<u64>,
    /// Sequences whose appearance ends generation.
    pub stop: Vec<String>,
}

impl Default for GenerationParameters {
    fn default() -> (parameters: GenerationParameters)
        ensures
            parameters.max_output_tokens is None,
            parameters.temperature is None,
            parameters.seed is None,
            parameters.stop@.len() == 0,
    {
        GenerationParameters {
            max_output_tokens: None,
            temperature: None,
            seed: None,
            stop: Vec::new(),
        }
    }
}

/// A generation parameter that cannot be honoured.
#[derive(Debug, Clone, PartialEq, Eq)]
pub enum InvalidGenerationParameter {
    /// A temperature that is negative or not a number.
    Temperature { reason: String },
    /// A token budget of zero, which asks for nothing.
    MaxOutputTokens { reason: String },
    /// Too many stop sequences, or one that is too large. Bounded because request
    /// content is untrusted.
    StopSequences { reason: String },
}

/// What an [`InvalidGenerationParameter`] says.
pub enum ParameterFault {
    Temperature { reason: Seq<char> },
    MaxOutputTokens { reason: Seq<char> },
    StopSequences { reason: Seq<char> },
}

impl InvalidGenerationParameter {
    pub open spec fn view(&self) -> ParameterFault {
        match self {
            InvalidGenerationParameter::Temperature { reason } => ParameterFault::Temperature {
                reason: reason@,
            },
            InvalidGenerationParameter::MaxOutputTokens { reason } =>
                ParameterFault::MaxOutputTokens { reason: reason@ },
            InvalidGenerationParameter::StopSequences { reason } =>
                ParameterFault::StopSequences { reason: reason@ },
        }
    }

    pub fn to_string(&self) -> (text: String)
        ensures
            text@ == parameter_fault_text(self@),
    {
        match self {
            InvalidGenerationParameter::Temperature { reason } => {
                let mut text = "temperature is invalid: ".to_owned();
                text.append(reason.as_str());
                text
            },
            InvalidGenerationParameter::MaxOutputTokens { reason } => {
                let mut text = "max_output_tokens is invalid: ".to_owned();
                text.append(reason.as_str());
                text
            },
            InvalidGenerationParameter::StopSequences { reason } => {
                let mut text = "stop sequences are invalid: ".to_owned();
                text.append(reason.as_str());
                text
            },
        }
    }
}

/// A fault in words.
pub open spec fn parameter_fault_text(fault: ParameterFault) -> Seq<char> {
    match fault {
        ParameterFault::Temperature { reason } => "temperature is invalid: "@ + reason,
        ParameterFault::MaxOutputTokens { reason } => "max_output_tokens is invalid: "@ + reason,
        ParameterFault::StopSequences { reason } => "stop sequences are invalid: "@ + reason,
    }
}

/// What is wrong with one stop sequence.
pub open spec fn stop_fault(sequence: Seq<char>) -> Option<ParameterFault> {
    if sequence.len() == 0 {
        Some(
            ParameterFault::StopSequences {
                reason: "an empty sequence would stop generation immediately"@,
            },
        )
    } else if encode_utf8(sequence).len() > MAX_STOP_SEQUENCE_BYTES {
        Some(
            ParameterFault::StopSequences {
                reason: "a sequence of "@ + decimal(encode_utf8(sequence).len())
                    + " bytes exceeds the limit of 256"@,
            },
        )
    } else {
        None
    }
}

/// The first thing wrong with the stop sequences from position `i` on.
pub open spec fn first_stop_fault(stop: Seq<String>, i: int) -> Option<ParameterFault>
    decreases stop.len() - i,
{
    if i >= stop.len() {
        None
    } else {
        match stop_fault(stop[i]@) {
            Some(fault) => Some(fault),
            None => first_stop_fault(stop, i + 1),
        }
    }
}

/// What is wrong with a temperature.
pub open spec fn temperature_fault(temperature: Option<Temperature>) -> Option<ParameterFault> {
    match temperature {
        Some(t) => if !finite_bits(t.bits) {
            Some(ParameterFault::Temperature { reason: t.shown@ + " is not a finite number"@ })
        } else if negative_bits(t.bits) {
            Some(ParameterFault::Temperature { reason: t.shown@ + " is negative"@ })
        } else {
            None
        },
        None => None,
    }
}

/// The first parameter that cannot be honoured.
pub open spec fn parameter_fault(p: &GenerationParameters) -> Option<ParameterFault> {
    if temperature_fault(p.temperature) is Some {
        temperature_fault(p.temperature)
    } else if p.max_output_tokens == Some(0u32) {
        Some(ParameterFault::MaxOutputTokens { reason: "zero asks for no output at all"@ })
    } else if p.stop@.len() > MAX_STOP_SEQUENCES {
        Some(
            ParameterFault::StopSequences {
                reason: decimal(p.stop@.len()) + " sequences exceeds the limit of 8"@,
            },
        )
    } else {
        first_stop_fault(p.stop@, 0)
    }
}

proof fn no_stop_fault(stop: Seq<String>, i: int)
    requires
        0 <= i,
    ensures
        first_stop_fault(stop, i) is None <==> forall|k: int|
            i <= k < stop.len() ==> 0 < (#[trigger] stop[k])@.len() && encode_utf8(
                stop[k]@,
            ).len() <= 256,
        first_stop_fault(stop, i) matches Some(fault) ==> fault is StopSequences,
    decreases stop.len() - i,
{
    if i < stop.len() {
        no_stop_fault(stop, i + 1);
        if first_stop_fault(stop, i) is None {
            assert(stop_fault(stop[i]@) is None);
        }
    }
}

/// Parameters are accepted exactly when the temperature, if it is given, is finite and
/// not below zero, the token budget, if it is given, is not zero, and there are no more
/// than eight stop sequences, none of them empty or longer than 256 bytes.
pub proof fn parameters_that_can_be_honoured_are_accepted(p: &GenerationParameters)
    ensures
        parameter_fault(p) is None <==> {
            &&& p.temperature matches Some(t) ==> t.bits & 0x7f80_0000u32 != 0x7f80_0000u32 && (
            t.bits & 0x8000_0000u32 == 0 || t.bits & 0x7fff_ffffu32 == 0)
            &&& p.max_output_tokens != Some(0u32)
            &&& p.stop@.len() <= 8
            &&& forall|k: int|
                0 <= k < p.stop@.len() ==> 0 < (#[trigger] p.stop@[k])@.len() && encode_utf8(
                    p.stop@[k]@,
                ).len() <= 256
        },
        parameter_fault(p) matches Some(fault) ==> {
            &&& fault is Temperature <==> (p.temperature matches Some(t) && (t.bits
                & 0x7f80_0000u32 == 0x7f80_0000u32 || (t.bits & 0x8000_0000u32 != 0 && t.bits
                & 0x7fff_ffffu32 != 0)))
            &&& fault is MaxOutputTokens ==> p.max_output_tokens == Some(0u32)
            &&& fault is StopSequences ==> p.max_output_tokens != Some(0u32) && p.stop@.len() > 0
        },
{
    if let Some(t) = p.temperature {
        the_bits_of_a_float_tell(t.bits);
    }
    no_stop_fault(p.stop@, 0);
}

impl GenerationParameters {
    /// Checks that every supplied parameter can be honoured.
    ///
    /// Invalid values are rejected rather than clamped: silently changing a caller's
    /// number produces output they did not ask for.
    pub fn validate(&self) -> (outcome: Result<(), InvalidGenerationParameter>)
        ensures
            match outcome {
                Ok(()) => parameter_fault(self) is None,
                Err(invalid) => parameter_fault(self) == Some(invalid@),
            },
    {
        if let Some(temperature) = &self.temperature {
            if (temperature.bits / 0x80_0000) % 0x100 == 0xff {
                let mut reason = temperature.shown.clone();
                reason.append(" is not a finite number");
                return Err(InvalidGenerationParameter::Temperature { reason });
            }
            if temperature.bits > 0x8000_0000 {
                let mut reason = temperature.shown.clone();
                reason.append(" is negative");
                return Err(InvalidGenerationParameter::Temperature { reason });
            }
        }
        if let Some(limit) = self.max_output_tokens {
            if limit == 0 {
                return Err(
                    InvalidGenerationParameter::MaxOutputTokens {
                        reason: "zero asks for no output at all".to_owned(),
                    },
                );
            }
        }
        if self.stop.len() > MAX_STOP_SEQUENCES {
            let mut reason = decimal_u64(self.stop.len() as u64);
            reason.append(" sequences exceeds the limit of 8");
            return Err(InvalidGenerationParameter::StopSequences { reason });
        }
        let mut i: usize = 0;
        while i < self.stop.len()
            invariant
                i <= self.stop@.len(),
                parameter_fault(self) == first_stop_fault(self.stop@, i as int),
            decreases self.stop@.len() - i,
        {
            let sequence = self.stop[i].as_str().as_bytes();
            proof {
                if self.stop@[i as int]@.len() == 0 {
                    assert(sequence@.len() == 0);
                } else {
                    encode_utf8_first_scalar(self.stop@[i as int]@);
                }
            }
            if sequence.len() == 0 {
                return Err(
                    InvalidGenerationParameter::StopSequences {
                        reason: "an empty sequence would stop generation immediately".to_owned(),
                    },
                );
            }
            if sequence.len() > MAX_STOP_SEQUENCE_BYTES {
                let mut reason = "a sequence of ".to_owned();
                reason.append(decimal_u64(sequence.len() as u64).as_str());
                reason.append(" bytes exceeds the limit of 256");
                return Err(InvalidGenerationParameter::StopSequences { reason });
            }
            i = i + 1;
        }
        Ok(())
    }
}

/// A request to continue text.
#[derive(Debug, Clone, PartialEq, Eq)]
pub struct GenerateTextRequest {
    pub input: TextInput,
    pub parameters: GenerationParameters,
}

impl GenerateTextRequest {
    /// A request to continue some text with no parameter overridden.
    pub fn continuation(input: &str) -> (request: Self)
        ensures
            request.input@ == input@,
            request.parameters.max_output_tokens is None,
            request.parameters.temperature is None,
            request.parameters.seed is None,
            request.parameters.stop@.len() == 0,
    {
        GenerateTextRequest {
            input: TextInput::Continuation(input.to_owned()),
            parameters: GenerationParameters::default(),
        }
    }

    /// Replaces the parameters.
    pub fn with_parameters(self, parameters: GenerationParameters) -> (request: Self)
        ensures
            request.input == self.input,
            request.parameters == parameters,
    {
        GenerateTextRequest { input: self.input, parameters }
    }
}

/// Why generation stopped. A reason this build does not recognise is carried as the
/// backend described it.
#[derive(Debug, Clone, PartialEq, Eq)]
pub enum FinishReason {
    /// The model finished, or a stop sequence was reached.
    Stop,
    /// The token budget was exhausted.
    Length,
    /// Something else, reported as the backend described it.
    Other(String),
}

/// What a [`FinishReason`] says.
pub enum Reason {
    Stop,
    Length,
    Other(Seq<char>),
}

impl FinishReason {
    pub open spec fn view(&self) -> Reason {
        match self {
            FinishReason::Stop => Reason::Stop,
            FinishReason::Length => Reason::Length,
            FinishReason::Other(text) => Reason::Other(text@),
        }
    }

    pub fn to_string(&self) -> (text: String)
        ensures
            text@ == match self@ {
                Reason::Stop => "stop"@,
                Reason::Length => "length"@,
                Reason::Other(reason) => "other:"@ + reason,
            },
    {
        match self {
            FinishReason::Stop => "stop".to_owned(),
            FinishReason::Length => "length".to_owned(),
            FinishReason::Other(reason) => {
                let mut text = "other:".to_owned();
                text.append(reason.as_str());
                text
            },
        }
    }
}

/// Token counts, when the backend reports them.
#[derive(Debug, Clone, Copy, PartialEq, Eq, Structural)]
pub struct GenerationUsage {
    pub input_tokens: u64,
    pub output_tokens: u64,
}

/// The result of a completed generation.
#[derive(Debug, Clone, PartialEq, Eq)]
pub struct GenerationResult {
    pub text: String,
    pub finish_reason: FinishReason,
    pub usage: Option<GenerationUsage>,
}

/// Why a generation result cannot be trusted.
#[derive(Debug, Clone, PartialEq, Eq)]
pub enum GenerationDefect {
    /// The backend reported success but produced nothing, which is not demonstrated
    /// generation.
    NoContent,
    /// Reported counts contradict what was returned.
    ImplausibleUsage { reason: String },
}

impl GenerationDefect {
    pub fn to_string(&self) -> (text: String)
        ensures
            text@ == match self {
                GenerationDefect::NoContent =>
                    "the backend reported success but generated no content"@,
                GenerationDefect::ImplausibleUsage { reason } =>
                    "the reported token usage is not plausible: "@ + reason@,
            },
    {
        match self {
            GenerationDefect::NoContent => {
                "the backend reported success but generated no content".to_owned()
            },
            GenerationDefect::ImplausibleUsage { reason } => {
                let mut text = "the reported token usage is not plausible: ".to_owned();
                text.append(reason.as_str());
                text
            },
        }
    }
}

/// Whether a backend counted no output tokens.
pub open spec fn counted_nothing(usage: Option<GenerationUsage>) -> bool {
    usage matches Some(u) && u.output_tokens == 0
}

/// Checks that a generation result is usable. The error is the first defect found.
pub fn validate_generation(result: &GenerationResult) -> (outcome: Result<(), GenerationDefect>)
    ensures
        match outcome {
            Ok(()) => result.text@.len() > 0 && !counted_nothing(result.usage),
            Err(GenerationDefect::NoContent) => result.text@.len() == 0,
            Err(GenerationDefect::ImplausibleUsage { reason }) => result.text@.len() > 0
                && counted_nothing(result.usage) && reason@
                == "content was returned but no output tokens were reported"@,
        },
{
    if result.text.as_str().is_empty() {
        return Err(GenerationDefect::NoContent);
    }
    if let Some(usage) = result.usage {
        if usage.output_tokens == 0 {
            return Err(
                GenerationDefect::ImplausibleUsage {
                    reason: "content was returned but no output tokens were reported".to_owned(),
                },
            );
        }
    }
    Ok(())
}

/// A fault of a parameter tells its reason whole, behind words that do not depend on it.
pub proof fn a_parameter_fault_tells_its_reason(reason: Seq<char>)
    ensures
        parameter_fault_text(ParameterFault::Temperature { reason }) == parameter_fault_text(
            ParameterFault::Temperature { reason: Seq::empty() },
        ) + reason,
        parameter_fault_text(ParameterFault::MaxOutputTokens { reason }) == parameter_fault_text(
            ParameterFault::MaxOutputTokens { reason: Seq::empty() },
        ) + reason,
        parameter_fault_text(ParameterFault::StopSequences { reason }) == parameter_fault_text(
            ParameterFault::StopSequences { reason: Seq::empty() },
        ) + reason,
{
}

/// A defect tells the numbers it is about, in words that do not depend on them.
pub proof fn a_defect_tells_its_numbers(index: usize, other: usize, expected: usize, actual: usize)
    ensures
        same_words(
            defect_text(ResultDefect::EmptyVector { index }),
            decimal(index as nat),
            defect_text(ResultDefect::EmptyVector { index: other }),
            decimal(other as nat),
        ),
        same_words(
            defect_text(ResultDefect::NonFiniteValue { index }),
            decimal(index as nat),
            defect_text(ResultDefect::NonFiniteValue { index: other }),
            decimal(other as nat),
        ),
        same_words(
            defect_text(ResultDefect::UnattributableIndex { index }),
            decimal(index as nat),
            defect_text(ResultDefect::UnattributableIndex { index: other }),
            decimal(other as nat),
        ),
        same_words(
            defect_text(ResultDefect::CountMismatch { expected, actual }),
            decimal(actual as nat),
            defect_text(ResultDefect::CountMismatch { expected, actual: other }),
            decimal(other as nat),
        ),
        exists|a: Seq<char>, b: Seq<char>, c: Seq<char>|
            defect_text(ResultDefect::CountMismatch { expected, actual }) == #[trigger] (a
                + decimal(expected as nat) + b + decimal(expected as nat) + c + decimal(
                actual as nat,
            )),
{
    let none = Seq::<char>::empty();
    let lead = "the embedding for input "@;
    words_stay(
        lead,
        decimal(index as nat),
        decimal(other as nat),
        " is empty"@,
        defect_text(ResultDefect::EmptyVector { index }),
        defect_text(ResultDefect::EmptyVector { index: other }),
    );
    words_stay(
        lead,
        decimal(index as nat),
        decimal(other as nat),
        " contains a value that is not finite"@,
        defect_text(ResultDefect::NonFiniteValue { index }),
        defect_text(ResultDefect::NonFiniteValue { index: other }),
    );
    let lead = "the response contains an unexpected or duplicate index "@;
    let text = defect_text(ResultDefect::UnattributableIndex { index });
    let second = defect_text(ResultDefect::UnattributableIndex { index: other });
    assert(text =~= lead + decimal(index as nat) + none);
    assert(second =~= lead + decimal(other as nat) + none);
    words_stay(lead, decimal(index as nat), decimal(other as nat), none, text, second);
    let a = "expected "@;
    let b = " embedding(s) for "@;
    let c = " input(s), got "@;
    let e = decimal(expected as nat);
    let lead = a + e + b + e + c;
    let text = defect_text(ResultDefect::CountMismatch { expected, actual });
    let second = defect_text(ResultDefect::CountMismatch { expected, actual: other });
    assert(text =~= a + e + b + e + c + decimal(actual as nat));
    assert(text =~= lead + decimal(actual as nat) + none);
    assert(second =~= lead + decimal(other as nat) + none);
    words_stay(lead, decimal(actual as nat), decimal(other as nat), none, text, second);
}

/// Whether an embedding is one that a response to `n` inputs may hold behind those before
/// it.
pub open spec fn is_usable(embeddings: Seq<Embedding>, n: nat, i: int) -> bool {
    &&& embeddings[i].index < n
    &&& forall|j: int| 0 <= j < i ==> (#[trigger] embeddings[j]).index != embeddings[i].index
    &&& embeddings[i].vector@.len() > 0
    &&& forall|k: int|
        0 <= k < embeddings[i].vector@.len() ==> #[trigger] embeddings[i].vector@[k]
            & 0x7f80_0000u32 != 0x7f80_0000u32
}

proof fn usable_has_no_defect(embeddings: Seq<Embedding>, n: nat, i: int)
    requires
        0 <= i < embeddings.len(),
    ensures
        is_usable(embeddings, n, i) <==> defect_at(embeddings, n, i) is None,
{
    let e = embeddings[i];
    assert forall|k: int| 0 <= k < e.vector@.len() implies (finite_bits(#[trigger] e.vector@[k])
        <==> e.vector@[k] & 0x7f80_0000u32 != 0x7f80_0000u32) by {
        the_bits_of_a_float_tell(e.vector@[k]);
    }
    if is_usable(embeddings, n, i) {
        assert forall|k: int| 0 <= k < e.vector@.len() implies finite_bits(
            #[trigger] e.vector@[k],
        ) by {
            assert(embeddings[i].vector@[k] & 0x7f80_0000u32 != 0x7f80_0000u32);
        }
    }
}

proof fn defects_begin_at(embeddings: Seq<Embedding>, n: nat, i: int, k: int)
    requires
        0 <= i <= k < embeddings.len(),
        forall|j: int| i <= j < k ==> #[trigger] defect_at(embeddings, n, j) is None,
        defect_at(embeddings, n, k) is Some,
    ensures
        first_defect(embeddings, n, i) == defect_at(embeddings, n, k),
    decreases k - i,
{
    if i < k {
        assert(defect_at(embeddings, n, i) is None);
        defects_begin_at(embeddings, n, i + 1, k);
    }
}

/// The first embedding that cannot be used is the one that is reported, by its index: as
/// one nobody asked for or that was given before, else as empty, and else as not finite.
pub proof fn the_first_flaw_is_reported(n: usize, embeddings: Seq<Embedding>, k: int)
    requires
        embeddings.len() == n,
        0 <= k < n,
        forall|i: int| 0 <= i < k ==> #[trigger] is_usable(embeddings, n as nat, i),
        !is_usable(embeddings, n as nat, k),
    ensures
        ({
            let index = embeddings[k].index;
            let given = exists|j: int| 0 <= j < k && (#[trigger] embeddings[j]).index == index;
            result_defect(n, embeddings) == Some(
                if index >= n || given {
                    ResultDefect::UnattributableIndex { index }
                } else if embeddings[k].vector@.len() == 0 {
                    ResultDefect::EmptyVector { index }
                } else {
                    ResultDefect::NonFiniteValue { index }
                },
            )
        }),
{
    assert forall|i: int| 0 <= i < k implies #[trigger] defect_at(
        embeddings,
        n as nat,
        i,
    ) is None by {
        assert(is_usable(embeddings, n as nat, i));
        usable_has_no_defect(embeddings, n as nat, i);
    }
    usable_has_no_defect(embeddings, n as nat, k);
    defects_begin_at(embeddings, n as nat, 0, k);
}

proof fn stop_faults_begin_at(stop: Seq<String>, i: int, k: int)
    requires
        0 <= i <= k < stop.len(),
        forall|j: int|
            i <= j < k ==> 0 < (#[trigger] stop[j])@.len() && encode_utf8(stop[j]@).len() <= 256,
        stop_fault(stop[k]@) is Some,
    ensures
        first_stop_fault(stop, i) == stop_fault(stop[k]@),
    decreases k - i,
{
    if i < k {
        assert(0 < stop[i]@.len());
        stop_faults_begin_at(stop, i + 1, k);
    }
}

/// What is wrong with parameters is told by the value that is wrong: a temperature as it
/// is shown, the number of stop sequences, or the length of the first that is too long.
pub proof fn a_refused_parameter_is_told(p: &GenerationParameters, t: Temperature, k: int)
    ensures
        p.temperature == Some(t) && t.bits & 0x7f80_0000u32 == 0x7f80_0000u32 ==> parameter_fault(p)
            == Some(ParameterFault::Temperature { reason: t.shown@ + " is not a finite number"@ }),
        p.temperature == Some(t) && t.bits & 0x7f80_0000u32 != 0x7f80_0000u32 && t.bits
            & 0x8000_0000u32 != 0 && t.bits & 0x7fff_ffffu32 != 0 ==> parameter_fault(p) == Some(
            ParameterFault::Temperature { reason: t.shown@ + " is negative"@ },
        ),
        p.temperature is None && p.max_output_tokens != Some(0u32) && p.stop@.len() > 8 ==> (
        parameter_fault(p) matches Some(ParameterFault::StopSequences { reason }) && exists|
            rest: Seq<char>,
        |
            reason == #[trigger] (decimal(p.stop@.len()) + rest)),
        p.temperature is None && p.max_output_tokens != Some(0u32) && 0 <= k < p.stop@.len() <= 8
            && (forall|j: int|
            0 <= j < k ==> 0 < (#[trigger] p.stop@[j])@.len() && encode_utf8(p.stop@[j]@).len()
                <= 256) && encode_utf8(p.stop@[k]@).len() > 256 ==> (parameter_fault(p) matches Some(
            ParameterFault::StopSequences { reason },
        ) && exists|before: Seq<char>, behind: Seq<char>|
            reason == #[trigger] put_between(
                before,
                decimal(encode_utf8(p.stop@[k]@).len()),
                behind,
            )),
{
    the_bits_of_a_float_tell(t.bits);
    if p.temperature is None && p.max_output_tokens != Some(0u32) && 0 <= k < p.stop@.len() <= 8
        && (forall|j: int|
        0 <= j < k ==> 0 < (#[trigger] p.stop@[j])@.len() && encode_utf8(p.stop@[j]@).len() <= 256)
        && encode_utf8(p.stop@[k]@).len() > 256 {
        if p.stop@[k]@.len() == 0 {
            assert(p.stop@[k]@ =~= Seq::empty());
        }
        stop_faults_begin_at(p.stop@, 0, k);
        assert(stop_fault(p.stop@[k]@)->0->StopSequences_reason == put_between(
            "a sequence of "@,
            decimal(encode_utf8(p.stop@[k]@).len()),
            " bytes exceeds the limit of 256"@,
        ));
    }
}

} // verus!
