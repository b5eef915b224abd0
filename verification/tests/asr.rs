use std::cell::RefCell;

use crowndictator::asr::download::{fetch, fetch_small, ModelFile, ModelPaths, REPO};
use crowndictator::asr::vocab::{blank_index, parse_vocab};
use crowndictator::asr::{
    detokenize, too_short, EngineAction, EngineCommand, EngineSlot, TdtDecoder, MAX_TOKENS_PER_STEP,
};

#[test]
fn the_repository_and_its_file_names() {
    assert_eq!(REPO, "istupakov/parakeet-tdt-0.6b-v2-onnx");
    assert_eq!(ModelFile::Preprocessor.file_name(), "nemo128.onnx");
    assert_eq!(ModelFile::Vocab.file_name(), "vocab.txt");
    assert_eq!(ModelFile::EncoderInt8.file_name(), "encoder-model.int8.onnx");
    assert_eq!(ModelFile::DecoderJointInt8.file_name(), "decoder_joint-model.int8.onnx");
    assert_eq!(ModelFile::Encoder.file_name(), "encoder-model.onnx");
    assert_eq!(ModelFile::EncoderData.file_name(), "encoder-model.onnx.data");
    assert_eq!(ModelFile::DecoderJoint.file_name(), "decoder_joint-model.onnx");
}

fn recorder(log: &RefCell<Vec<ModelFile>>, fail: Option<ModelFile>) -> impl Fn(ModelFile) -> Result<String, String> + '_ {
    move |f| {
        log.borrow_mut().push(f);
        if Some(f) == fail {
            Err(format!("no {}", f.file_name()))
        } else {
            Ok(format!("/cache/{}", f.file_name()))
        }
    }
}

#[test]
fn the_small_files_come_first() {
    let log = RefCell::new(Vec::new());
    let get = recorder(&log, None);
    let (pre, vocab) = fetch_small(&get).unwrap();
    assert_eq!(pre, "/cache/nemo128.onnx");
    assert_eq!(vocab, "/cache/vocab.txt");
    assert_eq!(*log.borrow(), vec![ModelFile::Preprocessor, ModelFile::Vocab]);
}

#[test]
fn the_cpu_variant_is_quantized() {
    let log = RefCell::new(Vec::new());
    let get = recorder(&log, None);
    let paths: ModelPaths<String> = fetch(true, &get).unwrap();
    assert_eq!(paths.preprocessor, "/cache/nemo128.onnx");
    assert_eq!(paths.encoder, "/cache/encoder-model.int8.onnx");
    assert_eq!(paths.decoder_joint, "/cache/decoder_joint-model.int8.onnx");
    assert_eq!(
        *log.borrow(),
        vec![ModelFile::Preprocessor, ModelFile::Vocab, ModelFile::EncoderInt8, ModelFile::DecoderJointInt8]
    );
}

#[test]
fn the_gpu_variant_brings_its_weights() {
    let log = RefCell::new(Vec::new());
    let get = recorder(&log, None);
    let paths = fetch(false, &get).unwrap();
    assert_eq!(paths.encoder, "/cache/encoder-model.onnx");
    assert_eq!(paths.decoder_joint, "/cache/decoder_joint-model.onnx");
    assert_eq!(
        *log.borrow(),
        vec![
            ModelFile::Preprocessor,
            ModelFile::Vocab,
            ModelFile::Encoder,
            ModelFile::EncoderData,
            ModelFile::DecoderJoint
        ]
    );
}

#[test]
fn the_first_failure_stops_the_fetch() {
    let log = RefCell::new(Vec::new());
    let get = recorder(&log, Some(ModelFile::EncoderData));
    assert_eq!(fetch(false, &get).err(), Some("no encoder-model.onnx.data".to_string()));
    assert_eq!(log.borrow().len(), 4);
    let log = RefCell::new(Vec::new());
    let get = recorder(&log, Some(ModelFile::Preprocessor));
    assert!(fetch_small(&get).is_err());
    assert_eq!(*log.borrow(), vec![ModelFile::Preprocessor]);
}

#[test]
fn a_tenth_of_a_second_is_the_shortest_recording() {
    assert!(too_short(0));
    assert!(too_short(1599));
    assert!(!too_short(1600));
}

/// Run the decoder against a scripted network: `picks[k]` is the (token,
/// step) of the k-th run.
fn decode(t_len: usize, blank: usize, picks: &[(usize, usize)]) -> (Vec<(usize, usize)>, Vec<usize>) {
    let mut d = TdtDecoder::new(t_len, blank);
    let mut runs = Vec::new();
    let mut k = 0;
    while let Some(run) = d.next_run() {
        runs.push(run);
        let (token, step) = picks[k.min(picks.len() - 1)];
        d.feed(token, step);
        k += 1;
    }
    (runs, d.tokens().clone())
}

#[test]
fn blanks_advance_one_frame_and_steps_skip_frames() {
    let blank = 9;
    let (runs, tokens) = decode(5, blank, &[(3, 2), (blank, 0), (4, 0), (blank, 1)]);
    // Frame 0 emits 3 and skips to 2; a blank moves to 3; 4 stays at 3 and is
    // given as the previous token; a blank with step 1 ends at 4, then the
    // last pick repeats.
    assert_eq!(runs, vec![(0, blank), (2, 3), (3, 3), (3, 4), (4, 4)]);
    assert_eq!(tokens, vec![3, 4]);
}

#[test]
fn a_frame_emits_at_most_ten_tokens() {
    let (runs, tokens) = decode(2, 0, &[(5, 0)]);
    assert_eq!(tokens.len(), 2 * MAX_TOKENS_PER_STEP);
    assert_eq!(runs.iter().filter(|r| r.0 == 0).count(), MAX_TOKENS_PER_STEP);
    assert_eq!(runs.len(), 2 * MAX_TOKENS_PER_STEP);
}

#[test]
fn the_feed_says_when_the_recurrent_state_moves_on() {
    let mut d = TdtDecoder::new(3, 1);
    assert!(d.feed(0, 0));
    assert!(!d.feed(1, 0));
    assert_eq!(d.next_run(), Some((1, 0)));
}

#[test]
fn no_frames_means_no_runs() {
    let (runs, tokens) = decode(0, 0, &[(1, 1)]);
    assert!(runs.is_empty());
    assert!(tokens.is_empty());
}

#[test]
fn word_marks_become_single_spaces() {
    let vocab: Vec<String> = vec![" hello".into(), " wor".into(), "ld".into(), " ".into(), "<blk>".into(), "  x ".into()];
    assert_eq!(detokenize(&vocab, &vec![0, 1, 2]), "hello world");
    assert_eq!(detokenize(&vocab, &vec![3, 0, 3, 3, 1]), "hello wor");
    assert_eq!(detokenize(&vocab, &vec![5, 5]), "x x");
    assert_eq!(detokenize(&vocab, &vec![]), "");
    assert_eq!(detokenize(&vec![" a\tb\n".to_string()], &vec![0]), "a b");
}

#[test]
fn the_vocabulary_is_ordered_by_id() {
    let text = "\u{2581}the 2\n<blk> 3\nb 1\r\na 0\n";
    let vocab = parse_vocab(text);
    assert_eq!(vocab, vec!["a", "b", " the", "<blk>"]);
    assert_eq!(blank_index(&vocab), Some(3));
}

#[test]
fn malformed_vocabulary_lines_are_skipped() {
    let text = "nospace\nx -1\ny 99999999999999999999999\nz +4\nsp ace 2\nw 2\n\nlast 0";
    let vocab = parse_vocab(text);
    // Equal ids keep their order; the last line needs no newline.
    assert_eq!(vocab, vec!["last", "sp ace", "w", "z"]);
    assert_eq!(blank_index(&vocab), None);
}

#[test]
fn the_first_blank_is_the_blank() {
    let vocab = parse_vocab("<blk> 5\n<blk> 1\nq 0");
    assert_eq!(vocab, vec!["q", "<blk>", "<blk>"]);
    assert_eq!(blank_index(&vocab), Some(1));
    assert!(parse_vocab("").is_empty());
}

#[test]
fn the_engine_loads_lazily_and_drops_when_idle() {
    let mut slot = EngineSlot::new();
    assert_eq!(slot.on_command(EngineCommand::IdleTimeout), EngineAction::Nothing);
    assert_eq!(slot.on_command(EngineCommand::Preload), EngineAction::Load);
    slot.loaded(true);
    assert_eq!(slot.on_command(EngineCommand::Preload), EngineAction::Nothing);
    assert_eq!(slot.on_command(EngineCommand::Transcribe), EngineAction::Transcribe);
    slot.transcribed(true);
    assert_eq!(slot.on_command(EngineCommand::IdleTimeout), EngineAction::Drop);
    assert_eq!(slot.on_command(EngineCommand::Transcribe), EngineAction::LoadThenTranscribe);
    slot.loaded(true);
    slot.transcribed(false);
    // A failed transcription dropped the model.
    assert_eq!(slot.on_command(EngineCommand::Transcribe), EngineAction::LoadThenTranscribe);
    slot.loaded(false);
    assert_eq!(slot.on_command(EngineCommand::Unload), EngineAction::Nothing);
    slot.loaded(true);
    assert_eq!(slot.on_command(EngineCommand::Unload), EngineAction::Drop);
    assert_eq!(slot.on_command(EngineCommand::Disconnected), EngineAction::Exit);
}
