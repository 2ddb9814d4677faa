use lo::asr::{ggml_file_for, ggml_file_from, is_english_only, DEFAULT_GGML};

#[test]
fn settings_map_to_ggml_weights() {
    assert_eq!(ggml_file_for("mlx-community/parakeet-tdt-0.6b-v3"), DEFAULT_GGML);
    assert_eq!(ggml_file_for("  ggml-small.en.bin  "), "ggml-small.en.bin");
    assert_eq!(ggml_file_for("GGML-Custom.BIN"), "GGML-Custom.BIN");
    assert_eq!(ggml_file_for("mlx-community/whisper-large-v3-turbo"), "ggml-large-v3-turbo.bin");
    assert_eq!(ggml_file_for("openai/whisper-medium.en"), "ggml-medium.en.bin");
    assert_eq!(ggml_file_for("openai/whisper-medium"), "ggml-medium.bin");
    assert_eq!(ggml_file_for("openai/whisper-Small"), "ggml-small.bin");
    assert_eq!(ggml_file_for("openai/whisper-tiny.en"), "ggml-tiny.en.bin");
    assert_eq!(ggml_file_for("openai/whisper-base"), "ggml-base.bin");
    assert_eq!(ggml_file_for("openai/whisper-base.en"), DEFAULT_GGML);
    assert_eq!(ggml_file_for("something-else"), DEFAULT_GGML);
}

#[test]
fn mapping_reads_the_lowercased_form() {
    // The keyword match runs on the lowercase form, the verbatim case is kept.
    assert_eq!(ggml_file_from("My-GGML.bin", "my-ggml.bin"), "My-GGML.bin");
    assert_eq!(ggml_file_from("X", "large"), "ggml-large-v3-turbo.bin");
}

#[test]
fn english_only_models_are_detected() {
    assert!(is_english_only("ggml-base.en.bin"));
    assert!(is_english_only("GGML-TINY.EN.BIN"));
    assert!(!is_english_only("ggml-base.bin"));
}
