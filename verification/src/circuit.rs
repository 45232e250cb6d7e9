//! The Boolean circuit representation shared by both parties: a
//! topologically ordered list of gates and an ordered list of output gate
//! indices, together with its cleartext semantics and its fingerprint.
use vstd::prelude::*;

use vstd::bytes::{spec_u32_to_le_bytes, u32_to_le_bytes};

use crate::hash::{blake3_xof, blake3_xof_bytes};
use crate::types::{block_of_bytes, Error, GateIndex};

verus! {

/// One gate of a Boolean circuit. Operand indices refer to earlier gates
/// only.
#[derive(Debug, Clone, Copy, PartialEq, Eq, Structural)]
pub enum Gate {
    /// An input bit contributed by the contributor.
    InContrib,
    /// An input bit contributed by the evaluator.
    InEval,
    /// XOR of two earlier gates.
    Xor(GateIndex, GateIndex),
    /// AND of two earlier gates.
    And(GateIndex, GateIndex),
    /// Negation of an earlier gate.
    Not(GateIndex),
}

/// A Boolean circuit: gates in topological order plus the indices of the
/// gates whose values are disclosed as outputs.
#[derive(Debug, Clone, PartialEq)]
pub struct Circuit {
    /// All gates, in topological order.
    pub gates: Vec<Gate>,
    /// The indices of the output gates, in disclosure order.
    pub output_gates: Vec<GateIndex>,
}

/// Whether a gate standing at position `i` points to earlier positions only.
pub open spec fn spec_gate_valid(g: Gate, i: int) -> bool {
    match g {
        Gate::InContrib => true,
        Gate::InEval => true,
        Gate::Xor(a, b) => (a as int) < i && (b as int) < i,
        Gate::And(a, b) => (a as int) < i && (b as int) < i,
        Gate::Not(a) => (a as int) < i,
    }
}

/// Topological validity of a circuit: every gate references earlier gates
/// only, every output index is in range, and all indices fit the index type.
pub open spec fn spec_circuit_wf(gates: Seq<Gate>, outputs: Seq<GateIndex>) -> bool {
    &&& gates.len() <= u32::MAX
    &&& outputs.len() <= u32::MAX
    &&& forall|i: int| 0 <= i < gates.len() ==> spec_gate_valid(#[trigger] gates[i], i)
    &&& forall|k: int| 0 <= k < outputs.len() ==> (#[trigger] outputs[k] as int) < gates.len()
}

/// Number of contributor input gates among the first `n` gates.
pub open spec fn spec_count_contrib(gates: Seq<Gate>, n: int) -> int
    decreases n,
{
    if n <= 0 {
        0
    } else {
        spec_count_contrib(gates, n - 1) + (if gates[n - 1] is InContrib {
            1int
        } else {
            0int
        })
    }
}

/// Number of evaluator input gates among the first `n` gates.
pub open spec fn spec_count_eval(gates: Seq<Gate>, n: int) -> int
    decreases n,
{
    if n <= 0 {
        0
    } else {
        spec_count_eval(gates, n - 1) + (if gates[n - 1] is InEval {
            1int
        } else {
            0int
        })
    }
}

/// The cleartext value of wire `i`: input gates read the next bit of the
/// owning party's input vector, the other gates apply their Boolean
/// operation to earlier wires.
pub open spec fn spec_wire(gates: Seq<Gate>, inc: Seq<bool>, ine: Seq<bool>, i: int) -> bool
    decreases i,
{
    if 0 <= i < gates.len() {
        match gates[i] {
            Gate::InContrib => inc[spec_count_contrib(gates, i)],
            Gate::InEval => ine[spec_count_eval(gates, i)],
            Gate::Xor(a, b) => if (a as int) < i && (b as int) < i {
                spec_wire(gates, inc, ine, a as int) != spec_wire(gates, inc, ine, b as int)
            } else {
                false
            },
            Gate::And(a, b) => if (a as int) < i && (b as int) < i {
                spec_wire(gates, inc, ine, a as int) && spec_wire(gates, inc, ine, b as int)
            } else {
                false
            },
            Gate::Not(a) => if (a as int) < i {
                !spec_wire(gates, inc, ine, a as int)
            } else {
                false
            },
        }
    } else {
        false
    }
}

proof fn lemma_count_nonneg(gates: Seq<Gate>, n: int)
    ensures
        spec_count_contrib(gates, n) >= 0,
        spec_count_eval(gates, n) >= 0,
    decreases n,
{
    if n > 0 {
        lemma_count_nonneg(gates, n - 1);
    }
}

proof fn lemma_count_mono(gates: Seq<Gate>, i: int, j: int)
    requires
        i <= j,
    ensures
        spec_count_contrib(gates, i) <= spec_count_contrib(gates, j),
        spec_count_eval(gates, i) <= spec_count_eval(gates, j),
    decreases j - i,
{
    if i < j {
        lemma_count_mono(gates, i, j - 1);
    }
}

impl Circuit {
    /// Topological validity of this circuit.
    pub open spec fn wf(&self) -> bool {
        spec_circuit_wf(self.gates@, self.output_gates@)
    }

    /// Builds a circuit from its parts.
    pub fn new(gates: Vec<Gate>, output_gates: Vec<GateIndex>) -> (c: Circuit)
        ensures
            c.gates@ == gates@,
            c.output_gates@ == output_gates@,
    {
        Circuit { gates, output_gates }
    }

    /// Checks topological validity: a gate referencing a later or equal
    /// position, or an output index out of range, is a protocol invariant
    /// violation.
    pub fn validate(&self) -> (r: Result<(), Error>)
        ensures
            r is Ok <==> self.wf(),
            r matches Err(e) ==> e == Error::ProtocolInvariantViolation,
    {
        if self.gates.len() > u32::MAX as usize || self.output_gates.len() > u32::MAX as usize {
            return Err(Error::ProtocolInvariantViolation);
        }
        let n = self.gates.len();
        for i in 0..n
            invariant
                n == self.gates@.len(),
                forall|j: int| 0 <= j < i ==> spec_gate_valid(#[trigger] self.gates@[j], j),
        {
            let ok = match self.gates[i] {
                Gate::InContrib => true,
                Gate::InEval => true,
                Gate::Xor(a, b) => (a as usize) < i && (b as usize) < i,
                Gate::And(a, b) => (a as usize) < i && (b as usize) < i,
                Gate::Not(a) => (a as usize) < i,
            };
            if !ok {
                return Err(Error::ProtocolInvariantViolation);
            }
        }
        let m = self.output_gates.len();
        for k in 0..m
            invariant
                m == self.output_gates@.len(),
                n == self.gates@.len(),
                forall|j: int| 0 <= j < n ==> spec_gate_valid(#[trigger] self.gates@[j], j),
                forall|j: int|
                    0 <= j < k ==> (#[trigger] self.output_gates@[j] as int) < self.gates@.len(),
        {
            if self.output_gates[k] as usize >= n {
                return Err(Error::ProtocolInvariantViolation);
            }
        }
        Ok(())
    }

    /// Number of contributor input gates the circuit declares.
    pub fn contrib_inputs(&self) -> (r: usize)
        ensures
            r == spec_count_contrib(self.gates@, self.gates@.len() as int),
    {
        let n = self.gates.len();
        let mut count: usize = 0;
        for i in 0..n
            invariant
                n == self.gates@.len(),
                count == spec_count_contrib(self.gates@, i as int),
                count <= i,
        {
            if matches!(self.gates[i], Gate::InContrib) {
                count += 1;
            }
        }
        count
    }

    /// Number of evaluator input gates the circuit declares.
    pub fn eval_inputs(&self) -> (r: usize)
        ensures
            r == spec_count_eval(self.gates@, self.gates@.len() as int),
    {
        let n = self.gates.len();
        let mut count: usize = 0;
        for i in 0..n
            invariant
                n == self.gates@.len(),
                count == spec_count_eval(self.gates@, i as int),
                count <= i,
    {
            if matches!(self.gates[i], Gate::InEval) {
                count += 1;
            }
        }
        count
    }

    /// Evaluates the circuit in cleartext on the two parties' input bits,
    /// returning the output wire values in output-gate order.
    ///
    /// A topologically invalid circuit is a protocol invariant violation; an
    /// input vector whose length disagrees with the declared input gate
    /// count of its party is an input shape error.
    pub fn eval(&self, input_contrib: &Vec<bool>, input_eval: &Vec<bool>) -> (r: Result<
        Vec<bool>,
        Error,
    >)
        ensures
            !self.wf() ==> r == Err::<Vec<bool>, Error>(Error::ProtocolInvariantViolation),
            (self.wf() && (input_contrib@.len() != spec_count_contrib(
                self.gates@,
                self.gates@.len() as int,
            ) || input_eval@.len() != spec_count_eval(self.gates@, self.gates@.len() as int)))
                ==> r == Err::<Vec<bool>, Error>(Error::InputShapeError),
            (self.wf() && input_contrib@.len() == spec_count_contrib(
                self.gates@,
                self.gates@.len() as int,
            ) && input_eval@.len() == spec_count_eval(self.gates@, self.gates@.len() as int)) ==> (
            r matches Ok(out) && out@.len() == self.output_gates@.len() && (forall|k: int|
                0 <= k < out@.len() ==> #[trigger] out@[k] == spec_wire(
                    self.gates@,
                    input_contrib@,
                    input_eval@,
                    self.output_gates@[k] as int,
                ))),
    {
        if let Err(e) = self.validate() {
            return Err(e);
        }
        if input_contrib.len() != self.contrib_inputs() || input_eval.len() != self.eval_inputs() {
            return Err(Error::InputShapeError);
        }

        let n = self.gates.len();
        let mut wires: Vec<bool> = Vec::new();
        let mut n_contrib: usize = 0;
        let mut n_eval: usize = 0;
        for i in 0..n
            invariant
                self.wf(),
                n == self.gates@.len(),
                input_contrib@.len() == spec_count_contrib(self.gates@, n as int),
                input_eval@.len() == spec_count_eval(self.gates@, n as int),
                input_contrib@.len() <= usize::MAX,
                input_eval@.len() <= usize::MAX,
                wires@.len() == i,
                n_contrib == spec_count_contrib(self.gates@, i as int),
                n_eval == spec_count_eval(self.gates@, i as int),
                forall|j: int|
                    0 <= j < i ==> #[trigger] wires@[j] == spec_wire(
                        self.gates@,
                        input_contrib@,
                        input_eval@,
                        j,
                    ),
        {
            proof {
                lemma_count_nonneg(self.gates@, i as int);
                lemma_count_mono(self.gates@, i as int + 1, n as int);
            }
            let v = match self.gates[i] {
                Gate::InContrib => {
                    let v = input_contrib[n_contrib];
                    n_contrib += 1;
                    v
                },
                Gate::InEval => {
                    let v = input_eval[n_eval];
                    n_eval += 1;
                    v
                },
                Gate::Xor(a, b) => {
                    let va = wires[a as usize];
                    let vb = wires[b as usize];
                    va != vb
                },
                Gate::And(a, b) => {
                    let va = wires[a as usize];
                    let vb = wires[b as usize];
                    va && vb
                },
                Gate::Not(a) => !wires[a as usize],
            };
            wires.push(v);
        }

        let m = self.output_gates.len();
        let mut out: Vec<bool> = Vec::new();
        for k in 0..m
            invariant
                self.wf(),
                m == self.output_gates@.len(),
                n == self.gates@.len(),
                wires@.len() == n,
                forall|j: int|
                    0 <= j < n ==> #[trigger] wires@[j] == spec_wire(
                        self.gates@,
                        input_contrib@,
                        input_eval@,
                        j,
                    ),
                out@.len() == k,
                forall|j: int|
                    0 <= j < k ==> #[trigger] out@[j] == spec_wire(
                        self.gates@,
                        input_contrib@,
                        input_eval@,
                        self.output_gates@[j] as int,
                    ),
        {
            out.push(wires[self.output_gates[k] as usize]);
        }
        Ok(out)
    }
}


/// Gates of a two-party circuit: the contributor's input gates, then
/// the evaluator's, then the compiled gates, whose operand indices already
/// count the input wires first.
pub open spec fn spec_two_party_gates(n_contrib: int, n_eval: int, gates: Seq<Gate>) -> Seq<
    Gate,
> {
    Seq::new(
        (n_contrib + n_eval + gates.len()) as nat,
        |i: int|
            if i < n_contrib {
                Gate::InContrib
            } else if i < n_contrib + n_eval {
                Gate::InEval
            } else {
                gates[i - n_contrib - n_eval]
            },
    )
}

/// Assembles a two-party circuit from the declared input counts and a
/// compiled gate list, and validates it: the result is returned only when it
/// is topologically valid.
pub fn build_two_party_circuit(
    n_contrib: usize,
    n_eval: usize,
    gates: Vec<Gate>,
    output_gates: Vec<GateIndex>,
) -> (r: Result<Circuit, Error>)
    requires
        n_contrib + n_eval + gates@.len() <= usize::MAX,
    ensures
        r is Ok <==> spec_circuit_wf(
            spec_two_party_gates(n_contrib as int, n_eval as int, gates@),
            output_gates@,
        ),
        r matches Ok(c) ==> c.gates@ == spec_two_party_gates(
            n_contrib as int,
            n_eval as int,
            gates@,
        ) && c.output_gates@ == output_gates@ && c.wf(),
        r matches Err(e) ==> e == Error::ProtocolInvariantViolation,
{
    let mut all_gates: Vec<Gate> = Vec::new();
    for i in 0..n_contrib
        invariant
            all_gates@.len() == i,
            forall|j: int| 0 <= j < i ==> all_gates@[j] == Gate::InContrib,
    {
        all_gates.push(Gate::InContrib);
    }
    for i in 0..n_eval
        invariant
            all_gates@.len() == n_contrib + i,
            forall|j: int| 0 <= j < n_contrib ==> all_gates@[j] == Gate::InContrib,
            forall|j: int|
                n_contrib <= j < n_contrib + i ==> all_gates@[j] == Gate::InEval,
    {
        all_gates.push(Gate::InEval);
    }
    let n = gates.len();
    for i in 0..n
        invariant
            n == gates@.len(),
            n_contrib + n_eval + n <= usize::MAX,
            all_gates@.len() == n_contrib + n_eval + i,
            forall|j: int| 0 <= j < n_contrib ==> all_gates@[j] == Gate::InContrib,
            forall|j: int|
                n_contrib <= j < n_contrib + n_eval ==> all_gates@[j] == Gate::InEval,
            forall|j: int|
                0 <= j < i ==> all_gates@[n_contrib + n_eval + j] == gates@[j],
    {
        all_gates.push(gates[i]);
    }
    proof {
        assert(all_gates@ =~= spec_two_party_gates(n_contrib as int, n_eval as int, gates@));
    }
    let c = Circuit { gates: all_gates, output_gates };
    if let Err(e) = c.validate() {
        return Err(e);
    }
    Ok(c)
}

/// A circuit fingerprint: the 32-byte hash digest of the canonical byte
/// encoding of its gates and its output list. Both parties must compute
/// equal fingerprints or abort.
#[derive(Debug, Clone, Copy, PartialEq, Eq)]
pub struct CircuitBlake3Hash(pub [u8; 32]);

/// The canonical byte encoding of one gate: a tag byte followed by the
/// little-endian operand indices.
pub open spec fn spec_gate_bytes(g: Gate) -> Seq<u8> {
    match g {
        Gate::InContrib => seq![0u8],
        Gate::InEval => seq![1u8],
        Gate::Xor(a, b) => seq![2u8] + spec_u32_to_le_bytes(a) + spec_u32_to_le_bytes(b),
        Gate::And(a, b) => seq![3u8] + spec_u32_to_le_bytes(a) + spec_u32_to_le_bytes(b),
        Gate::Not(a) => seq![4u8] + spec_u32_to_le_bytes(a),
    }
}

/// The encodings of the first `n` gates, concatenated.
pub open spec fn spec_gates_bytes(gates: Seq<Gate>, n: int) -> Seq<u8>
    decreases n,
{
    if n <= 0 {
        Seq::empty()
    } else {
        spec_gates_bytes(gates, n - 1) + spec_gate_bytes(gates[n - 1])
    }
}

/// The little-endian encodings of the first `n` output indices,
/// concatenated.
pub open spec fn spec_outputs_bytes(outputs: Seq<GateIndex>, n: int) -> Seq<u8>
    decreases n,
{
    if n <= 0 {
        Seq::empty()
    } else {
        spec_outputs_bytes(outputs, n - 1) + spec_u32_to_le_bytes(outputs[n - 1])
    }
}

/// The canonical byte encoding of a circuit: how many gates, their
/// encodings, the output count and the output indices, all little-endian.
pub open spec fn spec_circuit_encoding(gates: Seq<Gate>, outputs: Seq<GateIndex>) -> Seq<u8> {
    spec_u32_to_le_bytes(gates.len() as u32) + spec_gates_bytes(gates, gates.len() as int)
        + spec_u32_to_le_bytes(outputs.len() as u32) + spec_outputs_bytes(
        outputs,
        outputs.len() as int,
    )
}

impl Circuit {
    /// The fingerprint of this circuit: the hash of its canonical byte
    /// encoding.
    pub fn blake3_hash(&self) -> (r: CircuitBlake3Hash)
        requires
            self.wf(),
        ensures
            r.0@ == blake3_xof(spec_circuit_encoding(self.gates@, self.output_gates@), 32),
    {
        let n = self.gates.len();
        let m = self.output_gates.len();
        let mut bytes = u32_to_le_bytes(n as u32);
        for i in 0..n
            invariant
                self.wf(),
                n == self.gates@.len(),
                bytes@ == spec_u32_to_le_bytes(n as u32) + spec_gates_bytes(
                    self.gates@,
                    i as int,
                ),
        {
            match self.gates[i] {
                Gate::InContrib => {
                    bytes.push(0u8);
                },
                Gate::InEval => {
                    bytes.push(1u8);
                },
                Gate::Xor(a, b) => {
                    bytes.push(2u8);
                    let mut ab = u32_to_le_bytes(a);
                    let mut bb = u32_to_le_bytes(b);
                    bytes.append(&mut ab);
                    bytes.append(&mut bb);
                },
                Gate::And(a, b) => {
                    bytes.push(3u8);
                    let mut ab = u32_to_le_bytes(a);
                    let mut bb = u32_to_le_bytes(b);
                    bytes.append(&mut ab);
                    bytes.append(&mut bb);
                },
                Gate::Not(a) => {
                    bytes.push(4u8);
                    let mut ab = u32_to_le_bytes(a);
                    bytes.append(&mut ab);
                },
            }
            proof {
                assert(bytes@ =~= spec_u32_to_le_bytes(n as u32) + spec_gates_bytes(
                    self.gates@,
                    i as int + 1,
                ));
            }
        }
        let mut mb = u32_to_le_bytes(m as u32);
        bytes.append(&mut mb);
        let ghost prefix = bytes@;
        for k in 0..m
            invariant
                self.wf(),
                m == self.output_gates@.len(),
                bytes@ == prefix + spec_outputs_bytes(self.output_gates@, k as int),
        {
            let mut ob = u32_to_le_bytes(self.output_gates[k]);
            bytes.append(&mut ob);
            proof {
                assert(bytes@ =~= prefix + spec_outputs_bytes(
                    self.output_gates@,
                    k as int + 1,
                ));
            }
        }
        proof {
            assert(bytes@ =~= spec_circuit_encoding(self.gates@, self.output_gates@));
        }
        let digest = blake3_xof_bytes(&bytes, 32);
        CircuitBlake3Hash(block_of_bytes(&digest))
    }
}

} // verus!
