//! The two proving pipelines as scripts of actions: folding a sequence of
//! steps into one proof, and proving each step by itself.

use vstd::prelude::*;
use vstd::string::*;
use crate::action::{actions_view, texts, Action, ActionView, Curve};
use crate::distinct::{
    all_words, lemma_circuit_input_json_injective, lemma_hash_inputs_json_injective,
};
use crate::error::{ErrorKind, ErrorView};
use crate::json::{circuit_input_json, hash_inputs_json, state_json};
use crate::session::{
    all_ok, collected, document_count, lemma_collected_none, lemma_complete_run, Session,
    SessionView,
};
use crate::state::{genesis_view, CircuitInputGroth16, HashInputs, State, SEQ_LEN};

verus! {

/// What each of a list of step inputs holds.
pub open spec fn inputs_view(inputs: Seq<HashInputs>) -> Seq<Seq<Seq<u8>>> {
    inputs.map_values(|h: HashInputs| h@)
}

/// The script of the folding pipeline for the artifacts in `dir`: load the
/// program and the parameter signature, generate the public parameters, then
/// fold the steps in their order from the genesis state.
pub open spec fn nova_script(dir: Seq<char>, inputs: Seq<Seq<Seq<u8>>>) -> Seq<ActionView> {
    seq![
        ActionView::OpenProgram { path: dir + "/out"@ },
        ActionView::DecodeProgram { path: dir + "/out"@, curve: Curve::Pallas },
        ActionView::OpenAbi { path: dir + "/abi.json"@ },
        ActionView::DecodeAbi { path: dir + "/abi.json"@ },
        ActionView::Setup,
        ActionView::Fold {
            init: state_json(genesis_view()),
            steps: inputs.map_values(|words: Seq<Seq<u8>>| hash_inputs_json(words)),
        },
    ]
}

/// The actions that load what the per-step pipeline needs from `dir`: the
/// program, the parameter signature and the proving key.
pub open spec fn groth16_loading(dir: Seq<char>) -> Seq<ActionView> {
    seq![
        ActionView::OpenProgram { path: dir + "/out"@ },
        ActionView::DecodeProgram { path: dir + "/out"@, curve: Curve::Bn128 },
        ActionView::OpenAbi { path: dir + "/abi.json"@ },
        ActionView::DecodeAbi { path: dir + "/abi.json"@ },
        ActionView::OpenProvingKey { path: dir + "/proving.key"@ },
        ActionView::ReadProvingKey { path: dir + "/proving.key"@ },
    ]
}

/// The `k`-th action of the per-step pipeline after loading. Each step takes
/// three actions: parse its arguments, execute the program, prove.
pub open spec fn groth16_step_action(inputs: Seq<Seq<Seq<u8>>>, k: int) -> ActionView {
    let step = (k / 3) as usize;
    if k % 3 == 0 {
        ActionView::ParseArguments { step, arguments: circuit_input_json(inputs[k / 3]) }
    } else if k % 3 == 1 {
        ActionView::Execute { step }
    } else {
        ActionView::Prove { step }
    }
}

/// The script of the per-step pipeline for the artifacts in `dir`: load, then
/// take the steps one after the other in their order.
pub open spec fn groth16_script(dir: Seq<char>, inputs: Seq<Seq<Seq<u8>>>) -> Seq<ActionView> {
    groth16_loading(dir) + Seq::new(3 * inputs.len(), |k: int| groth16_step_action(inputs, k))
}

/// The documents of a per-step session that performed its whole script: the
/// output reported for the proof of each step, in the order of the steps.
pub open spec fn groth16_documents(
    inputs: Seq<Seq<Seq<u8>>>,
    outcomes: Seq<Result<Seq<char>, Seq<char>>>,
) -> Seq<Seq<char>> {
    Seq::new(inputs.len(), |i: int| outcomes[8 + 3 * i]->Ok_0)
}

/// What a per-step session has collected after loading and `m` whole steps.
proof fn lemma_groth16_collected(
    dir: Seq<char>,
    inputs: Seq<Seq<Seq<u8>>>,
    outcomes: Seq<Result<Seq<char>, Seq<char>>>,
    m: nat,
)
    requires
        m <= inputs.len(),
        outcomes.len() == 6 + 3 * inputs.len(),
    ensures
        collected(groth16_script(dir, inputs), outcomes.take(6 + 3 * m as int)) == Seq::new(
            m,
            |i: int| outcomes[8 + 3 * i]->Ok_0,
        ),
    decreases m,
{
    let script = groth16_script(dir, inputs);
    if m == 0 {
        lemma_collected_none(script, outcomes, 6);
        assert(collected(script, outcomes.take(6)) =~= Seq::new(
            0,
            |i: int| outcomes[8 + 3 * i]->Ok_0,
        ));
    } else {
        lemma_groth16_collected(dir, inputs, outcomes, (m - 1) as nat);
        let before: int = m - 1;
        let base: int = 6 + 3 * before;
        let a = outcomes.take(base);
        let b = outcomes.take(base + 1);
        let c = outcomes.take(base + 2);
        let d = outcomes.take(base + 3);
        assert(b.drop_last() =~= a);
        assert(c.drop_last() =~= b);
        assert(d.drop_last() =~= c);
        assert(script[base] == groth16_step_action(inputs, 3 * before));
        assert(script[base + 1] == groth16_step_action(inputs, 3 * before + 1));
        assert(script[base + 2] == groth16_step_action(inputs, 3 * before + 2));
        assert(collected(script, b) == collected(script, a));
        assert(collected(script, c) == collected(script, b));
        assert(collected(script, d) == collected(script, c).push(outcomes[base + 2]->Ok_0));
        assert(collected(script, d) =~= Seq::new(m, |i: int| outcomes[8 + 3 * i]->Ok_0));
    }
}

/// A per-step session that performs its whole script ends with one document
/// for each step, in the order of the steps: the output that was reported for
/// the proof of that step.
pub proof fn lemma_groth16_complete(
    dir: Seq<char>,
    inputs: Seq<Seq<Seq<u8>>>,
    outcomes: Seq<Result<Seq<char>, Seq<char>>>,
)
    requires
        outcomes.len() == 6 + 3 * inputs.len(),
        all_ok(outcomes),
    ensures
        groth16_script(dir, inputs).len() == outcomes.len(),
        SessionView::start(groth16_script(dir, inputs)).run(outcomes).result() == Some(
            Ok::<Seq<Seq<char>>, ErrorView>(groth16_documents(inputs, outcomes)),
        ),
        groth16_documents(inputs, outcomes).len() == inputs.len(),
        document_count(groth16_script(dir, inputs)) == inputs.len(),
{
    let script = groth16_script(dir, inputs);
    lemma_groth16_collected(dir, inputs, outcomes, inputs.len());
    assert(outcomes.take(6 + 3 * inputs.len() as int) =~= outcomes);
    lemma_complete_run(script, outcomes);
}

/// A folding session that performs its whole script ends with one document:
/// the output that was reported for the fold.
pub proof fn lemma_nova_complete(
    dir: Seq<char>,
    inputs: Seq<Seq<Seq<u8>>>,
    outcomes: Seq<Result<Seq<char>, Seq<char>>>,
)
    requires
        outcomes.len() == 6,
        all_ok(outcomes),
    ensures
        nova_script(dir, inputs).len() == 6,
        SessionView::start(nova_script(dir, inputs)).run(outcomes).result() == Some(
            Ok::<Seq<Seq<char>>, ErrorView>(seq![outcomes[5]->Ok_0]),
        ),
{
    let script = nova_script(dir, inputs);
    lemma_collected_none(script, outcomes, 5);
    assert(outcomes.drop_last() =~= outcomes.take(5));
    assert(collected(script, outcomes) =~= seq![outcomes[5]->Ok_0]);
    lemma_complete_run(script, outcomes);
}

/// The program, the parameter signature and the proving key of a directory
/// have three different paths.
pub proof fn lemma_artifact_paths(dir: Seq<char>)
    ensures
        dir + "/out"@ != dir + "/abi.json"@,
        dir + "/out"@ != dir + "/proving.key"@,
        dir + "/abi.json"@ != dir + "/proving.key"@,
{
    reveal_strlit("/out");
    reveal_strlit("/abi.json");
    reveal_strlit("/proving.key");
    assert((dir + "/out"@).len() == dir.len() + 4);
    assert((dir + "/abi.json"@).len() == dir.len() + 9);
    assert((dir + "/proving.key"@).len() == dir.len() + 12);
}

/// A folding session that cannot load an artifact says which: the error of
/// the program is about the program's path and that of the parameter
/// signature about the signature's, so that a signature that does not decode
/// is never taken for a program that does not decode, whatever reasons the
/// driver gave.
pub proof fn lemma_nova_loading_failures(
    dir: Seq<char>,
    inputs: Seq<Seq<Seq<u8>>>,
    why: Seq<char>,
    other: Seq<char>,
)
    ensures
        ({
            let script = nova_script(dir, inputs);
            &&& script[0].failure(why).kind == ErrorKind::Io
            &&& script[0].failure(why).artifact == Some(dir + "/out"@)
            &&& script[1].failure(why).kind == ErrorKind::Format
            &&& script[1].failure(why).artifact == Some(dir + "/out"@)
            &&& script[2].failure(why).kind == ErrorKind::Io
            &&& script[2].failure(why).artifact == Some(dir + "/abi.json"@)
            &&& script[3].failure(why).kind == ErrorKind::Format
            &&& script[3].failure(why).artifact == Some(dir + "/abi.json"@)
            &&& script[3].failure(why).message == "Could not decode "@ + (dir + "/abi.json"@)
                + ": "@ + why
            &&& script[1].failure(other) != script[3].failure(why)
            &&& script[0].failure(other) != script[2].failure(why)
        }),
{
    lemma_artifact_paths(dir);
}

/// A per-step session that cannot load an artifact says which: the error is
/// about the path of the program, of the parameter signature or of the
/// proving key, and no two of these are taken for each other.
pub proof fn lemma_groth16_loading_failures(
    dir: Seq<char>,
    inputs: Seq<Seq<Seq<u8>>>,
    why: Seq<char>,
    other: Seq<char>,
)
    ensures
        ({
            let script = groth16_script(dir, inputs);
            &&& script[0].failure(why).kind == ErrorKind::Io
            &&& script[0].failure(why).artifact == Some(dir + "/out"@)
            &&& script[1].failure(why).kind == ErrorKind::Format
            &&& script[1].failure(why).artifact == Some(dir + "/out"@)
            &&& script[2].failure(why).kind == ErrorKind::Io
            &&& script[2].failure(why).artifact == Some(dir + "/abi.json"@)
            &&& script[3].failure(why).kind == ErrorKind::Format
            &&& script[3].failure(why).artifact == Some(dir + "/abi.json"@)
            &&& script[4].failure(why).kind == ErrorKind::Io
            &&& script[4].failure(why).artifact == Some(dir + "/proving.key"@)
            &&& script[5].failure(why).kind == ErrorKind::Io
            &&& script[5].failure(why).artifact == Some(dir + "/proving.key"@)
            &&& script[1].failure(other) != script[3].failure(why)
            &&& script[0].failure(other) != script[2].failure(why)
            &&& script[0].failure(other) != script[4].failure(why)
            &&& script[2].failure(other) != script[4].failure(why)
        }),
{
    lemma_artifact_paths(dir);
    let script = groth16_script(dir, inputs);
    assert(script[0] == groth16_loading(dir)[0]);
    assert(script[1] == groth16_loading(dir)[1]);
    assert(script[2] == groth16_loading(dir)[2]);
    assert(script[3] == groth16_loading(dir)[3]);
    assert(script[4] == groth16_loading(dir)[4]);
    assert(script[5] == groth16_loading(dir)[5]);
}

/// A pair of words holds two sequences of 32 bytes.
proof fn lemma_inputs_shape(h: HashInputs)
    ensures
        h@.len() == 2,
        all_words(h@),
{
}

/// The folding script shows its steps and their order: two sequences of
/// steps, of one length, with the same script are the same sequence.
pub proof fn lemma_nova_script_injective(dir: Seq<char>, a: Seq<HashInputs>, b: Seq<HashInputs>)
    requires
        a.len() == b.len(),
        nova_script(dir, inputs_view(a)) == nova_script(dir, inputs_view(b)),
    ensures
        a == b,
{
    let texts_a = inputs_view(a).map_values(|words: Seq<Seq<u8>>| hash_inputs_json(words));
    let texts_b = inputs_view(b).map_values(|words: Seq<Seq<u8>>| hash_inputs_json(words));
    assert(nova_script(dir, inputs_view(a))[5]->Fold_steps == texts_a);
    assert(nova_script(dir, inputs_view(b))[5]->Fold_steps == texts_b);
    assert forall|i: int| 0 <= i < a.len() implies a[i] == b[i] by {
        assert(texts_a[i] == hash_inputs_json(a[i]@));
        assert(texts_b[i] == hash_inputs_json(b[i]@));
        lemma_inputs_shape(a[i]);
        lemma_inputs_shape(b[i]);
        lemma_hash_inputs_json_injective(a[i]@, b[i]@);
        HashInputs::lemma_bytes_determine_inputs(a[i], b[i]);
    }
    assert(a =~= b);
}

/// Folding is asked for in the order given: where two steps differ, the
/// script that takes them one way round is not the script that takes them
/// the other way round.
pub proof fn lemma_nova_order(dir: Seq<char>, first: HashInputs, second: HashInputs)
    requires
        first != second,
    ensures
        nova_script(dir, inputs_view(seq![first, second])) != nova_script(
            dir,
            inputs_view(seq![second, first]),
        ),
{
    let forward = seq![first, second];
    let backward = seq![second, first];
    if nova_script(dir, inputs_view(forward)) == nova_script(dir, inputs_view(backward)) {
        lemma_nova_script_injective(dir, forward, backward);
        assert(forward[0] == backward[0]);
    }
}

/// The per-step script shows its steps and their order: two sequences of
/// steps, of one length, with the same script are the same sequence.
pub proof fn lemma_groth16_script_injective(
    dir: Seq<char>,
    a: Seq<HashInputs>,
    b: Seq<HashInputs>,
)
    requires
        a.len() == b.len(),
        groth16_script(dir, inputs_view(a)) == groth16_script(dir, inputs_view(b)),
    ensures
        a == b,
{
    let script_a = groth16_script(dir, inputs_view(a));
    let script_b = groth16_script(dir, inputs_view(b));
    assert forall|i: int| 0 <= i < a.len() implies a[i] == b[i] by {
        assert(script_a[6 + 3 * i] == groth16_step_action(inputs_view(a), 3 * i));
        assert(script_b[6 + 3 * i] == groth16_step_action(inputs_view(b), 3 * i));
        assert(script_a[6 + 3 * i]->ParseArguments_arguments == circuit_input_json(a[i]@));
        assert(script_b[6 + 3 * i]->ParseArguments_arguments == circuit_input_json(b[i]@));
        lemma_inputs_shape(a[i]);
        lemma_inputs_shape(b[i]);
        lemma_circuit_input_json_injective(a[i]@, b[i]@);
        HashInputs::lemma_bytes_determine_inputs(a[i], b[i]);
    }
    assert(a =~= b);
}

/// The path of the file `name` in the directory `dir`.
fn path_in(dir: &str, name: &str) -> (path: String)
    ensures
        path@ == dir@ + name@,
{
    let mut path = String::from_str(dir);
    path.append(name);
    path
}

/// The entry point of both pipelines.
pub struct Prover;

impl Prover {
    /// Starts a folding session over the steps of `hash_input_seq`, in their
    /// order, with the artifacts in `dir`.
    pub fn prove_nova(hash_input_seq: &[HashInputs; SEQ_LEN], dir: String) -> (session: Session)
        ensures
            session@ == SessionView::start(nova_script(dir@, inputs_view(hash_input_seq@))),
            session@.wf(),
    {
        let ghost inputs = inputs_view(hash_input_seq@);
        let mut steps: Vec<String> = Vec::new();
        for i in 0..SEQ_LEN
            invariant
                inputs == inputs_view(hash_input_seq@),
                steps@.len() == i,
                texts(steps@) == inputs.take(i as int).map_values(
                    |words: Seq<Seq<u8>>| hash_inputs_json(words),
                ),
        {
            let ghost before = texts(steps@);
            let text = hash_input_seq[i].to_json();
            steps.push(text);
            proof {
                let after = inputs.take(i + 1).map_values(
                    |words: Seq<Seq<u8>>| hash_inputs_json(words),
                );
                assert(inputs[i as int] == hash_input_seq[i as int]@);
                assert forall|j: int| 0 <= j < i + 1 implies texts(steps@)[j] == after[j] by {
                    if j < i {
                        assert(texts(steps@)[j] == before[j]);
                    }
                }
                assert(texts(steps@) =~= after);
            }
        }
        assert(inputs.take(SEQ_LEN as int) =~= inputs);
        let init = State::default().to_json();
        let mut script: Vec<Action> = Vec::new();
        script.push(Action::OpenProgram { path: path_in(dir.as_str(), "/out") });
        script.push(
            Action::DecodeProgram { path: path_in(dir.as_str(), "/out"), curve: Curve::Pallas },
        );
        script.push(Action::OpenAbi { path: path_in(dir.as_str(), "/abi.json") });
        script.push(Action::DecodeAbi { path: path_in(dir.as_str(), "/abi.json") });
        script.push(Action::Setup);
        script.push(Action::Fold { init, steps });
        assert(actions_view(script@) =~= nova_script(dir@, inputs));
        Session::new(script)
    }

    /// The work that yields the witness of step `step`: hold the JSON text
    /// of `inputs` against the program's parameters, then run the program on
    /// what came of it.
    pub fn compute_witness_bn128(inputs: CircuitInputGroth16, step: usize) -> (actions: (
        Action,
        Action,
    ))
        ensures
            actions.0@ == (ActionView::ParseArguments {
                step,
                arguments: circuit_input_json(inputs@),
            }),
            actions.1@ == (ActionView::Execute { step }),
    {
        let arguments = inputs.to_json();
        (Action::ParseArguments { step, arguments }, Action::Execute { step })
    }

    /// Starts a per-step session over the steps of `hash_input_seq`, in
    /// their order, with the artifacts in `dir`.
    pub fn prove_groth16(hash_input_seq: &[HashInputs; SEQ_LEN], dir: String) -> (session: Session)
        ensures
            session@ == SessionView::start(groth16_script(dir@, inputs_view(hash_input_seq@))),
            session@.wf(),
    {
        let ghost inputs = inputs_view(hash_input_seq@);
        let mut script: Vec<Action> = Vec::new();
        script.push(Action::OpenProgram { path: path_in(dir.as_str(), "/out") });
        script.push(
            Action::DecodeProgram { path: path_in(dir.as_str(), "/out"), curve: Curve::Bn128 },
        );
        script.push(Action::OpenAbi { path: path_in(dir.as_str(), "/abi.json") });
        script.push(Action::DecodeAbi { path: path_in(dir.as_str(), "/abi.json") });
        script.push(Action::OpenProvingKey { path: path_in(dir.as_str(), "/proving.key") });
        script.push(Action::ReadProvingKey { path: path_in(dir.as_str(), "/proving.key") });
        assert(actions_view(script@) =~= groth16_loading(dir@) + Seq::new(
            0,
            |k: int| groth16_step_action(inputs, k),
        ));
        for i in 0..SEQ_LEN
            invariant
                inputs == inputs_view(hash_input_seq@),
                script@.len() == 6 + 3 * i,
                actions_view(script@) == groth16_loading(dir@) + Seq::new(
                    3 * i as nat,
                    |k: int| groth16_step_action(inputs, k),
                ),
        {
            let ghost before = actions_view(script@);
            let input = CircuitInputGroth16::new(hash_input_seq[i]);
            let (parse, execute) = Self::compute_witness_bn128(input, i);
            script.push(parse);
            script.push(execute);
            script.push(Action::Prove { step: i });
            proof {
                let after = groth16_loading(dir@) + Seq::new(
                    3 * (i + 1) as nat,
                    |k: int| groth16_step_action(inputs, k),
                );
                assert(inputs[i as int] == hash_input_seq[i as int]@);
                assert forall|j: int| 0 <= j < 6 + 3 * (i + 1) implies actions_view(script@)[j]
                    == after[j] by {
                    if j < 6 + 3 * i {
                        assert(actions_view(script@)[j] == before[j]);
                    }
                }
                assert(actions_view(script@) =~= after);
            }
        }
        Session::new(script)
    }
}

} // verus!
