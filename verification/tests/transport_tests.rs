use gadget_core::transport::{continue_transaction, start_transaction, BatchStep, BlockingI2cAdapter};

#[derive(Debug, PartialEq, Clone, Copy)]
enum BusFault {
    NoAcknowledge,
    ArbitrationLoss,
}

/// A transport that answers from a script and records what reached it.
struct ScriptedBus {
    answers: Vec<Result<(), BusFault>>,
    log: Vec<(u8, char, usize)>,
}

impl ScriptedBus {
    fn answer(&mut self, address: u8, kind: char, len: usize) -> Result<(), BusFault> {
        let at = self.log.len();
        self.log.push((address, kind, len));
        self.answers[at]
    }
}

enum Op {
    Read(Vec<u8>),
    Write(Vec<u8>),
}

/// Runs a batch the way a caller of the adapter does.
fn run(adapter: &mut BlockingI2cAdapter<ScriptedBus>, address: u8, ops: &mut [Op]) -> Result<(), BusFault> {
    let mut step = start_transaction(ops.len());
    loop {
        match step {
            BatchStep::Finished(result) => return result,
            BatchStep::Issue(i) => {
                let outcome = match &mut ops[i] {
                    Op::Read(buffer) => {
                        let outcome = adapter.bus().answer(address, 'r', buffer.len());
                        if outcome.is_ok() {
                            for byte in buffer.iter_mut() {
                                *byte = 0xA5;
                            }
                        }
                        outcome
                    }
                    Op::Write(bytes) => adapter.bus().answer(address, 'w', bytes.len()),
                };
                step = continue_transaction(ops.len(), i, outcome);
            }
        }
    }
}

#[test]
fn failed_write_aborts_the_batch_before_the_read() {
    let bus = ScriptedBus { answers: vec![Err(BusFault::NoAcknowledge), Ok(())], log: vec![] };
    let mut adapter = BlockingI2cAdapter::new(bus);
    let mut ops = [Op::Write(vec![0x20, 0x57]), Op::Read(vec![0, 0, 0])];
    let result = run(&mut adapter, 0x18, &mut ops);
    assert_eq!(result, Err(BusFault::NoAcknowledge));
    match &ops[1] {
        Op::Read(buffer) => assert_eq!(buffer, &vec![0, 0, 0]),
        Op::Write(_) => unreachable!(),
    }
    let bus = adapter.release();
    assert_eq!(bus.log, vec![(0x18, 'w', 2)]);
}

#[test]
fn batch_runs_in_order_with_one_address() {
    let bus = ScriptedBus { answers: vec![Ok(()), Ok(()), Ok(())], log: vec![] };
    let mut adapter = BlockingI2cAdapter::new(bus);
    let mut ops = [Op::Write(vec![0x28]), Op::Read(vec![0; 6]), Op::Write(vec![1, 2])];
    let result = run(&mut adapter, 0x19, &mut ops);
    assert_eq!(result, Ok(()));
    match &ops[1] {
        Op::Read(buffer) => assert_eq!(buffer, &vec![0xA5; 6]),
        Op::Write(_) => unreachable!(),
    }
    let bus = adapter.release();
    assert_eq!(bus.log, vec![(0x19, 'w', 1), (0x19, 'r', 6), (0x19, 'w', 2)]);
}

#[test]
fn later_failure_keeps_earlier_operations() {
    let bus = ScriptedBus {
        answers: vec![Ok(()), Ok(()), Err(BusFault::ArbitrationLoss), Ok(())],
        log: vec![],
    };
    let mut adapter = BlockingI2cAdapter::new(bus);
    let mut ops = [
        Op::Write(vec![1]),
        Op::Read(vec![0; 2]),
        Op::Read(vec![0; 4]),
        Op::Write(vec![9]),
    ];
    let result = run(&mut adapter, 0x3C, &mut ops);
    assert_eq!(result, Err(BusFault::ArbitrationLoss));
    match (&ops[1], &ops[2]) {
        (Op::Read(first), Op::Read(second)) => {
            assert_eq!(first, &vec![0xA5; 2]);
            assert_eq!(second, &vec![0; 4]);
        }
        _ => unreachable!(),
    }
    assert_eq!(adapter.release().log.len(), 3);
}

#[test]
fn empty_batch_succeeds_without_touching_the_transport() {
    let step: BatchStep<BusFault> = start_transaction(0);
    assert!(matches!(step, BatchStep::Finished(Ok(()))));
    let bus = ScriptedBus { answers: vec![], log: vec![] };
    let mut adapter = BlockingI2cAdapter::new(bus);
    assert_eq!(run(&mut adapter, 0x18, &mut []), Ok(()));
    assert!(adapter.release().log.is_empty());
}

#[test]
fn steps_of_a_batch() {
    let step: BatchStep<BusFault> = start_transaction(2);
    assert!(matches!(step, BatchStep::Issue(0)));
    let step: BatchStep<BusFault> = continue_transaction(2, 0, Ok(()));
    assert!(matches!(step, BatchStep::Issue(1)));
    let step: BatchStep<BusFault> = continue_transaction(2, 1, Ok(()));
    assert!(matches!(step, BatchStep::Finished(Ok(()))));
    let step = continue_transaction(2, 0, Err(BusFault::NoAcknowledge));
    assert!(matches!(step, BatchStep::Finished(Err(BusFault::NoAcknowledge))));
    let step = continue_transaction(2, 1, Err(BusFault::ArbitrationLoss));
    assert!(matches!(step, BatchStep::Finished(Err(BusFault::ArbitrationLoss))));
}

#[test]
fn adapter_keeps_what_happens_to_its_transport() {
    let mut adapter = BlockingI2cAdapter::new(vec![1u8, 2]);
    adapter.bus().push(3);
    assert_eq!(adapter.release(), vec![1, 2, 3]);
}
