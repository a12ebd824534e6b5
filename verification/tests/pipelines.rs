use keccak_prover::action::{Action, Curve};
use keccak_prover::error::{ErrorKind, ProverError};
use keccak_prover::session::Session;
use keccak_prover::{CircuitInputGroth16, EthU256, HashInputs, Prover, State, SEQ_LEN};

/// Performs a session with `perform` standing in for the outside work, and
/// returns the actions that were asked for and how the session ended.
fn drive(
    mut session: Session,
    mut perform: impl FnMut(&Action) -> Result<String, String>,
) -> (Vec<Action>, Result<Vec<String>, ProverError>) {
    let mut asked = Vec::new();
    loop {
        let action = match session.action() {
            Some(action) => action.clone(),
            None => break,
        };
        let outcome = perform(&action);
        asked.push(action);
        session = session.advance(outcome);
    }
    (asked, session.finish().unwrap())
}

fn output_of(action: &Action) -> String {
    match action {
        Action::Fold { .. } => "aggregate".to_string(),
        Action::Prove { step } => format!("document {step}"),
        _ => String::new(),
    }
}

fn fail_at(position: usize, why: &str) -> impl FnMut(&Action) -> Result<String, String> {
    let mut seen = 0;
    let why = why.to_string();
    move |action| {
        seen += 1;
        if seen == position + 1 {
            Err(why.clone())
        } else {
            Ok(output_of(action))
        }
    }
}

#[test]
fn nova() {
    let hash_inputs = [HashInputs::new(1.into(), 2.into()); SEQ_LEN];

    let session = Prover::prove_nova(&hash_inputs, "../circuits/keccak_nova".to_string());
    let (asked, result) = drive(session, |action| Ok(output_of(action)));
    let documents = result.unwrap();

    assert_eq!(documents, vec!["aggregate".to_string()]);
    let step = HashInputs::new(1.into(), 2.into()).to_json();
    assert_eq!(
        asked,
        vec![
            Action::OpenProgram { path: "../circuits/keccak_nova/out".to_string() },
            Action::DecodeProgram {
                path: "../circuits/keccak_nova/out".to_string(),
                curve: Curve::Pallas,
            },
            Action::OpenAbi { path: "../circuits/keccak_nova/abi.json".to_string() },
            Action::DecodeAbi { path: "../circuits/keccak_nova/abi.json".to_string() },
            Action::Setup,
            Action::Fold { init: State::default().to_json(), steps: vec![step.clone(), step] },
        ]
    );
}

#[test]
fn groth16() {
    let hash_inputs = [HashInputs::new(1.into(), 2.into()); SEQ_LEN];

    let session = Prover::prove_groth16(&hash_inputs, "../circuits/keccak_groth16".to_string());
    let (asked, result) = drive(session, |action| Ok(output_of(action)));
    let documents = result.unwrap();

    assert_eq!(documents, vec!["document 0".to_string(), "document 1".to_string()]);
    let arguments = CircuitInputGroth16::new(HashInputs::new(1.into(), 2.into())).to_json();
    assert_eq!(
        asked,
        vec![
            Action::OpenProgram { path: "../circuits/keccak_groth16/out".to_string() },
            Action::DecodeProgram {
                path: "../circuits/keccak_groth16/out".to_string(),
                curve: Curve::Bn128,
            },
            Action::OpenAbi { path: "../circuits/keccak_groth16/abi.json".to_string() },
            Action::DecodeAbi { path: "../circuits/keccak_groth16/abi.json".to_string() },
            Action::OpenProvingKey { path: "../circuits/keccak_groth16/proving.key".to_string() },
            Action::ReadProvingKey { path: "../circuits/keccak_groth16/proving.key".to_string() },
            Action::ParseArguments { step: 0, arguments: arguments.clone() },
            Action::Execute { step: 0 },
            Action::Prove { step: 0 },
            Action::ParseArguments { step: 1, arguments },
            Action::Execute { step: 1 },
            Action::Prove { step: 1 },
        ]
    );
}

#[test]
fn fold_takes_the_steps_in_the_order_given() {
    let a = HashInputs::new(1.into(), 2.into());
    let b = HashInputs::new(3.into(), 4.into());
    let (forward, _) =
        drive(Prover::prove_nova(&[a, b], "d".to_string()), |action| Ok(output_of(action)));
    let (backward, _) =
        drive(Prover::prove_nova(&[b, a], "d".to_string()), |action| Ok(output_of(action)));
    assert_eq!(
        forward[5],
        Action::Fold { init: State::default().to_json(), steps: vec![a.to_json(), b.to_json()] }
    );
    assert_eq!(
        backward[5],
        Action::Fold { init: State::default().to_json(), steps: vec![b.to_json(), a.to_json()] }
    );
    assert_ne!(forward[5], backward[5]);
    assert_eq!(forward[..5], backward[..5]);
}

#[test]
fn steps_are_proved_in_the_order_given() {
    let a = HashInputs::new(1.into(), 2.into());
    let b = HashInputs::new(EthU256 { limbs: [0, 0, 0, 9] }, 4.into());
    let (asked, result) =
        drive(Prover::prove_groth16(&[a, b], "d".to_string()), |action| Ok(output_of(action)));
    assert_eq!(
        asked[6],
        Action::ParseArguments { step: 0, arguments: CircuitInputGroth16::new(a).to_json() }
    );
    assert_eq!(
        asked[9],
        Action::ParseArguments { step: 1, arguments: CircuitInputGroth16::new(b).to_json() }
    );
    assert_eq!(result.unwrap(), vec!["document 0".to_string(), "document 1".to_string()]);
}

#[test]
fn a_missing_program_is_an_io_error() {
    let inputs = [HashInputs::new(1.into(), 2.into()); SEQ_LEN];
    let (asked, result) = drive(
        Prover::prove_nova(&inputs, "nowhere".to_string()),
        fail_at(0, "No such file or directory (os error 2)"),
    );
    assert_eq!(asked.len(), 1);
    assert_eq!(
        result,
        Err(ProverError {
            kind: ErrorKind::Io,
            artifact: Some("nowhere/out".to_string()),
            step: None,
            message: "Could not open nowhere/out: No such file or directory (os error 2)"
                .to_string(),
        })
    );
}

#[test]
fn a_program_that_does_not_decode_is_a_format_error() {
    let inputs = [HashInputs::new(1.into(), 2.into()); SEQ_LEN];
    let (asked, result) =
        drive(Prover::prove_groth16(&inputs, "d".to_string()), fail_at(1, "not a bn128 program"));
    assert_eq!(asked.len(), 2);
    assert_eq!(
        result,
        Err(ProverError {
            kind: ErrorKind::Format,
            artifact: Some("d/out".to_string()),
            step: None,
            message: "Could not decode d/out: not a bn128 program".to_string(),
        })
    );
}

#[test]
fn a_missing_signature_is_an_io_error() {
    let inputs = [HashInputs::new(1.into(), 2.into()); SEQ_LEN];
    let (asked, result) =
        drive(Prover::prove_nova(&inputs, "d".to_string()), fail_at(2, "permission denied"));
    assert_eq!(asked.len(), 3);
    assert_eq!(
        result,
        Err(ProverError {
            kind: ErrorKind::Io,
            artifact: Some("d/abi.json".to_string()),
            step: None,
            message: "Could not open d/abi.json: permission denied".to_string(),
        })
    );
}

#[test]
fn a_signature_that_does_not_decode_is_a_format_error() {
    let inputs = [HashInputs::new(1.into(), 2.into()); SEQ_LEN];
    let (_, result) = drive(
        Prover::prove_nova(&inputs, "d".to_string()),
        fail_at(3, "expected value at line 1 column 1"),
    );
    assert_eq!(
        result,
        Err(ProverError {
            kind: ErrorKind::Format,
            artifact: Some("d/abi.json".to_string()),
            step: None,
            message: "Could not decode d/abi.json: expected value at line 1 column 1".to_string(),
        })
    );
}

#[test]
fn a_failed_setup_is_a_setup_error() {
    let inputs = [HashInputs::new(1.into(), 2.into()); SEQ_LEN];
    let (asked, result) =
        drive(Prover::prove_nova(&inputs, "d".to_string()), fail_at(4, "no parameters"));
    assert_eq!(asked.len(), 5);
    assert_eq!(
        result,
        Err(ProverError {
            kind: ErrorKind::Setup,
            artifact: None,
            step: None,
            message: "no parameters".to_string(),
        })
    );
}

#[test]
fn a_failed_fold_is_a_proof_error_and_leaves_nothing() {
    let inputs = [HashInputs::new(1.into(), 2.into()); SEQ_LEN];
    let (asked, result) =
        drive(Prover::prove_nova(&inputs, "d".to_string()), fail_at(5, "UnSat"));
    assert_eq!(asked.len(), 6);
    assert_eq!(
        result,
        Err(ProverError {
            kind: ErrorKind::Proof,
            artifact: None,
            step: None,
            message: "Error `UnSat` during proving".to_string(),
        })
    );
}

#[test]
fn a_proving_key_that_cannot_be_opened_or_read_is_an_io_error() {
    let inputs = [HashInputs::new(1.into(), 2.into()); SEQ_LEN];
    let (_, opened) =
        drive(Prover::prove_groth16(&inputs, "d".to_string()), fail_at(4, "not found"));
    assert_eq!(
        opened,
        Err(ProverError {
            kind: ErrorKind::Io,
            artifact: Some("d/proving.key".to_string()),
            step: None,
            message: "Could not open d/proving.key: not found".to_string(),
        })
    );
    let (_, read) =
        drive(Prover::prove_groth16(&inputs, "d".to_string()), fail_at(5, "interrupted"));
    assert_eq!(
        read,
        Err(ProverError {
            kind: ErrorKind::Io,
            artifact: Some("d/proving.key".to_string()),
            step: None,
            message: "Could not read d/proving.key: interrupted".to_string(),
        })
    );
}

#[test]
fn arguments_that_do_not_fit_are_an_abi_mismatch() {
    let inputs = [HashInputs::new(1.into(), 2.into()); SEQ_LEN];
    let (asked, result) = drive(
        Prover::prove_groth16(&inputs, "d".to_string()),
        fail_at(6, "Expected 2 arguments, found 1"),
    );
    assert_eq!(asked.len(), 7);
    assert_eq!(
        result,
        Err(ProverError {
            kind: ErrorKind::AbiMismatch,
            artifact: None,
            step: Some(0),
            message: "Could not parse argument: Expected 2 arguments, found 1".to_string(),
        })
    );
}

#[test]
fn a_program_that_stops_is_an_execution_failure() {
    let inputs = [HashInputs::new(1.into(), 2.into()); SEQ_LEN];
    let (asked, result) = drive(
        Prover::prove_groth16(&inputs, "d".to_string()),
        fail_at(10, "Assertion failed"),
    );
    assert_eq!(asked.len(), 11);
    assert_eq!(
        result,
        Err(ProverError {
            kind: ErrorKind::ExecutionFailure,
            artifact: None,
            step: Some(1),
            message: "Execution failed: Assertion failed".to_string(),
        })
    );
}

#[test]
fn a_failed_proof_of_a_later_step_drops_the_earlier_documents() {
    let inputs = [HashInputs::new(1.into(), 2.into()); SEQ_LEN];
    let mut session = Prover::prove_groth16(&inputs, "d".to_string());
    for _ in 0..8 {
        session = session.advance(Ok(String::new()));
    }
    assert_eq!(session.action(), Some(&Action::Prove { step: 0 }));
    session = session.advance(Ok("document 0".to_string()));
    session = session.advance(Ok(String::new()));
    session = session.advance(Ok(String::new()));
    assert_eq!(session.action(), Some(&Action::Prove { step: 1 }));
    session = session.advance(Err("bad witness".to_string()));
    assert_eq!(session.action(), None);
    assert_eq!(
        session.finish(),
        Some(Err(ProverError {
            kind: ErrorKind::Proof,
            artifact: None,
            step: Some(1),
            message: "bad witness".to_string(),
        }))
    );
}

#[test]
fn a_session_that_is_over_takes_no_further_report() {
    let inputs = [HashInputs::new(1.into(), 2.into()); SEQ_LEN];
    let mut session = Prover::prove_nova(&inputs, "d".to_string());
    session = session.advance(Err("first".to_string()));
    session = session.advance(Err("second".to_string()));
    session = session.advance(Ok("late".to_string()));
    assert_eq!(session.action(), None);
    assert_eq!(
        session.finish(),
        Some(Err(ProverError {
            kind: ErrorKind::Io,
            artifact: Some("d/out".to_string()),
            step: None,
            message: "Could not open d/out: first".to_string(),
        }))
    );

    let mut done = Prover::prove_nova(&inputs, "d".to_string());
    for _ in 0..5 {
        done = done.advance(Ok(String::new()));
    }
    done = done.advance(Ok("aggregate".to_string()));
    done = done.advance(Err("too late".to_string()));
    done = done.advance(Ok("extra".to_string()));
    assert_eq!(done.finish(), Some(Ok(vec!["aggregate".to_string()])));
}

#[test]
fn a_session_in_progress_has_no_result() {
    let inputs = [HashInputs::new(1.into(), 2.into()); SEQ_LEN];
    let session = Prover::prove_groth16(&inputs, "d".to_string());
    assert_eq!(session.finish(), None);
    let session = Prover::prove_groth16(&inputs, "d".to_string()).advance(Ok(String::new()));
    assert_eq!(
        session.action(),
        Some(&Action::DecodeProgram { path: "d/out".to_string(), curve: Curve::Bn128 })
    );
    assert_eq!(session.finish(), None);
}

#[test]
fn an_empty_script_is_over_at_once() {
    let session = Session::new(Vec::new());
    assert_eq!(session.action(), None);
    assert_eq!(session.finish(), Some(Ok(Vec::new())));
}

#[test]
fn only_proofs_are_documents() {
    let script = vec![
        Action::Setup,
        Action::Prove { step: 4 },
        Action::Execute { step: 5 },
        Action::Fold { init: "i".to_string(), steps: vec![] },
    ];
    let mut session = Session::new(script);
    for text in ["a", "b", "c", "d"] {
        session = session.advance(Ok(text.to_string()));
    }
    assert_eq!(session.finish(), Some(Ok(vec!["b".to_string(), "d".to_string()])));
}

#[test]
fn actions_know_their_failures() {
    let prove = Action::Prove { step: 3 };
    assert!(prove.yields_document());
    assert_eq!(prove.step(), Some(3));
    assert_eq!(prove.failure_kind(), ErrorKind::Proof);
    assert!(!Action::Setup.yields_document());
    assert_eq!(Action::Setup.step(), None);
    let decode = Action::DecodeAbi { path: "d/abi.json".to_string() };
    assert_eq!(decode.failure_kind(), ErrorKind::Format);
    assert_eq!(decode.artifact(), Some("d/abi.json".to_string()));
    assert_eq!(prove.artifact(), None);
    assert_eq!(Action::Setup.artifact(), None);
    assert_eq!(
        Action::Execute { step: 1 }.failure("why"),
        ProverError {
            kind: ErrorKind::ExecutionFailure,
            artifact: None,
            step: Some(1),
            message: "Execution failed: why".to_string(),
        }
    );
}

#[test]
fn identical_inputs_ask_for_identical_work() {
    let inputs = [HashInputs::new(7.into(), 8.into()), HashInputs::new(9.into(), 10.into())];
    let (once, _) =
        drive(Prover::prove_groth16(&inputs, "d".to_string()), |action| Ok(output_of(action)));
    let (again, _) =
        drive(Prover::prove_groth16(&inputs, "d".to_string()), |action| Ok(output_of(action)));
    assert_eq!(once, again);
    assert_eq!(inputs[0].to_json(), inputs[0].to_json());
}

#[test]
fn witness_work_is_parsing_then_execution() {
    let input = CircuitInputGroth16::new(HashInputs::new(1.into(), 2.into()));
    let (parse, execute) = Prover::compute_witness_bn128(input, 1);
    assert_eq!(parse, Action::ParseArguments { step: 1, arguments: input.to_json() });
    assert_eq!(execute, Action::Execute { step: 1 });
    assert_eq!(parse.failure_kind(), ErrorKind::AbiMismatch);
    assert_eq!(execute.failure_kind(), ErrorKind::ExecutionFailure);
}

#[test]
fn a_signature_that_does_not_decode_is_not_taken_for_a_program() {
    let inputs = [HashInputs::new(1.into(), 2.into()); SEQ_LEN];
    let (asked_program, program) =
        drive(Prover::prove_nova(&inputs, "d".to_string()), fail_at(1, "unexpected end of file"));
    let (asked_abi, abi) =
        drive(Prover::prove_nova(&inputs, "d".to_string()), fail_at(3, "unexpected end of file"));
    assert_eq!(asked_program.len(), 2);
    assert_eq!(asked_abi.len(), 4);
    let program = program.unwrap_err();
    let abi = abi.unwrap_err();
    assert_eq!(program.kind, ErrorKind::Format);
    assert_eq!(abi.kind, ErrorKind::Format);
    assert_eq!(program.artifact, Some("d/out".to_string()));
    assert_eq!(abi.artifact, Some("d/abi.json".to_string()));
    assert_eq!(program.message, "Could not decode d/out: unexpected end of file");
    assert_eq!(abi.message, "Could not decode d/abi.json: unexpected end of file");
    assert_ne!(program, abi);
}

#[test]
fn every_loading_failure_names_its_artifact() {
    let inputs = [HashInputs::new(1.into(), 2.into()); SEQ_LEN];
    let expected = [
        (ErrorKind::Io, "dir/out", "Could not open dir/out: why"),
        (ErrorKind::Format, "dir/out", "Could not decode dir/out: why"),
        (ErrorKind::Io, "dir/abi.json", "Could not open dir/abi.json: why"),
        (ErrorKind::Format, "dir/abi.json", "Could not decode dir/abi.json: why"),
        (ErrorKind::Io, "dir/proving.key", "Could not open dir/proving.key: why"),
        (ErrorKind::Io, "dir/proving.key", "Could not read dir/proving.key: why"),
    ];
    for (position, (kind, artifact, message)) in expected.into_iter().enumerate() {
        let (asked, result) =
            drive(Prover::prove_groth16(&inputs, "dir".to_string()), fail_at(position, "why"));
        assert_eq!(asked.len(), position + 1);
        assert_eq!(
            result,
            Err(ProverError {
                kind,
                artifact: Some(artifact.to_string()),
                step: None,
                message: message.to_string(),
            })
        );
    }
}
