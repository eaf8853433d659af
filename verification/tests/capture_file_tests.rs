use dsa_learning::audio::controller::{AudioResponse, Controller, ControllerEvent, Effect};
use dsa_learning::audio::devices::{DefaultDevice, DeviceSnapshot};
use dsa_learning::audio::pipeline::{capture_i16, capture_ieee};
use dsa_learning::audio::recorder::duration_seconds;
use dsa_learning::audio::state::RecordingState;
use dsa_learning::audio::stream::{ContainerSpec, NegotiatedConfig, SampleEncoding, SampleFormat};
use dsa_learning::models::AudioCommand;
use std::io::Cursor;

fn ready_controller() -> Controller {
    let (mut controller, _) = Controller::new();
    controller.handle(ControllerEvent::Enumerated(Ok(DeviceSnapshot {
        names: vec![Some("Mic".to_string())],
        default_device: DefaultDevice::Named("Mic".to_string()),
    })));
    controller
}

fn open(controller: &mut Controller, path: &str, negotiated: NegotiatedConfig) -> ContainerSpec {
    controller.handle(ControllerEvent::Command(AudioCommand::StartRecording {
        filepath: path.to_string(),
        sample_rate: 48000,
        channels: 1,
    }));
    controller.handle(ControllerEvent::Negotiated(Ok(negotiated)));
    let step = controller.handle(ControllerEvent::FileCreated(Ok(())));
    let spec = match step.effect {
        Effect::CreateWriter(spec) => spec,
        other => panic!("expected CreateWriter, got {:?}", other),
    };
    controller.handle(ControllerEvent::WriterCreated(Ok(())));
    controller.handle(ControllerEvent::StreamBuilt(Ok(())));
    let step = controller.handle(ControllerEvent::StreamStarted(Ok(())));
    assert!(matches!(step.reply, Some(AudioResponse::Started)));
    spec
}

fn wav_spec(spec: ContainerSpec) -> hound::WavSpec {
    hound::WavSpec {
        channels: spec.channels,
        sample_rate: spec.sample_rate,
        bits_per_sample: spec.bits_per_sample,
        sample_format: match spec.sample_format {
            SampleEncoding::Int => hound::SampleFormat::Int,
            SampleEncoding::Float => hound::SampleFormat::Float,
        },
    }
}

#[test]
fn one_second_of_silence_end_to_end() {
    let mut controller = ready_controller();
    let negotiated = NegotiatedConfig { sample_rate: 48000, channels: 1, format: SampleFormat::F32 };
    let spec = open(&mut controller, "/tmp/test.wav", negotiated);
    let mut file = Cursor::new(Vec::new());
    {
        let mut writer = hound::WavWriter::new(&mut file, wav_spec(spec)).unwrap();
        let buffer: Vec<u32> = vec![0.0f32.to_bits(); 480];
        let mut samples = Vec::new();
        for _ in 0..100 {
            samples.clear();
            capture_ieee(controller.recording_state(), &buffer, negotiated.channels, &mut samples);
            for &s in &samples {
                writer.write_sample(s).unwrap();
            }
        }
        let step = controller.handle(ControllerEvent::Command(AudioCommand::StopRecording));
        assert!(matches!(step.effect, Effect::CloseSession));
        assert!(matches!(step.reply, Some(AudioResponse::Stopped)));
        writer.finalize().unwrap();
    }
    file.set_position(0);
    let reader = hound::WavReader::new(file).unwrap();
    let header = reader.spec();
    assert_eq!(header.sample_rate, 48000);
    assert_eq!(header.channels, 1);
    assert_eq!(header.bits_per_sample, 16);
    assert_eq!(reader.len(), 48000);
    assert_eq!(duration_seconds(reader.len(), header.sample_rate, header.channels), 1);
    assert!(reader.into_samples::<i16>().all(|s| s.unwrap() == 0));
}

#[test]
fn paused_buffers_do_not_reach_the_file() {
    let mut controller = ready_controller();
    let negotiated = NegotiatedConfig { sample_rate: 8000, channels: 2, format: SampleFormat::I16 };
    let spec = open(&mut controller, "/tmp/p.wav", negotiated);
    let mut file = Cursor::new(Vec::new());
    let buffer: Vec<i16> = (0..64).collect();
    let (n, m, k) = (5usize, 7usize, 3usize);
    {
        let mut writer = hound::WavWriter::new(&mut file, wav_spec(spec)).unwrap();
        let mut samples = Vec::new();
        let mut feed = |controller: &Controller, times: usize, writer: &mut hound::WavWriter<&mut Cursor<Vec<u8>>>| {
            for _ in 0..times {
                samples.clear();
                capture_i16(controller.recording_state(), &buffer, negotiated.channels, &mut samples);
                for &s in &samples {
                    writer.write_sample(s).unwrap();
                }
            }
        };
        feed(&controller, n, &mut writer);
        controller.handle(ControllerEvent::Command(AudioCommand::PauseRecording));
        assert_eq!(controller.recording_state(), Some(RecordingState::Paused));
        feed(&controller, m, &mut writer);
        controller.handle(ControllerEvent::Command(AudioCommand::ResumeRecording));
        feed(&controller, k, &mut writer);
        controller.handle(ControllerEvent::Command(AudioCommand::StopRecording));
        writer.finalize().unwrap();
    }
    file.set_position(0);
    let reader = hound::WavReader::new(file).unwrap();
    assert_eq!(reader.spec().channels, 1);
    assert_eq!(reader.len() as usize, (n + k) * 32);
    let samples: Vec<i16> = reader.into_samples::<i16>().map(|s| s.unwrap()).collect();
    assert_eq!(&samples[..3], &[0, 2, 4]);
}
