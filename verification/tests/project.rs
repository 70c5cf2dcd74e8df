use looper_processor::project::{
    data_path, default_project_manifest_path, default_project_path, estimate_file_size, join_path,
    AudioClipId, AudioClipRegistry, TimeSignature,
};
use looper_processor::sample_buffer::SampleBuffer;

#[test]
fn test_join_path() {
    assert_eq!(join_path("/data", "a"), "/data/a");
    assert_eq!(join_path("/data/", "a"), "/data/a");
    assert_eq!(join_path("", "a"), "a");
    assert_eq!(join_path("/data", "/abs"), "/abs");
    assert_eq!(join_path("/data", ""), "/data/");
}

#[test]
fn test_default_project_paths() {
    assert_eq!(default_project_path("/home/me/data"), "/home/me/data/default_project");
    let (project, manifest) = default_project_manifest_path("/home/me/data");
    assert_eq!(project, "/home/me/data/default_project");
    assert_eq!(manifest, "/home/me/data/default_project/project.msgpack");
}

#[test]
fn test_estimate_file_size() {
    // 2 channels of one second at 44.1kHz of f32 samples
    assert_eq!(estimate_file_size(2, 44100, 4), 352_800);
    assert_eq!(estimate_file_size(0, 44100, 4), 0);
}

#[test]
fn test_audio_clip_registry() {
    let mut registry: AudioClipRegistry<f32> = AudioClipRegistry::new();
    assert_eq!(registry.len(), 0);
    let a = registry.register("a.wav".to_string(), SampleBuffer::filled_with(1, 3, 0.5));
    let b = registry.register("b.wav".to_string(), SampleBuffer::filled_with(2, 1, 0.25));
    assert_eq!(a, AudioClipId(0));
    assert_eq!(b, AudioClipId(1));
    assert_eq!(registry.len(), 2);
    let clip = registry.get(b).unwrap();
    assert_eq!(clip.id(), b);
    assert_eq!(clip.path(), "b.wav");
    assert_eq!(clip.contents().num_channels(), 2);
    assert_eq!(clip.contents().get(1, 0), 0.25);
    assert_eq!(registry.get(a).unwrap().path(), "a.wav");
    assert!(registry.get(AudioClipId(2)).is_none());
}

#[test]
fn test_time_signature_default() {
    assert_eq!(TimeSignature::default().beats_per_bar(), 4);
}

#[test]
fn test_data_path() {
    assert_eq!(
        data_path("/Users/me"),
        "/Users/me/Library/Containers/beijaflor-io.Sequencer-Mac/Data/Library/Application Support"
    );
}
