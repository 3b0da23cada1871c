use std::sync::Arc;
use yakyak::domain::audio::manager::{AudioFileManager, Language};
use yakyak::domain::audio::wav::{WavFile, WavFormat};

fn tone(n: u8) -> Arc<WavFile> {
    Arc::new(WavFile {
        format: WavFormat { audio_format: 1, channels: 1, sample_rate: 8000, bits_per_sample: 16 },
        data: Arc::new(vec![n, 0]),
    })
}

#[test]
fn test_manager_creation() {
    let manager = AudioFileManager::new("/var/audio".to_string());
    assert_eq!(manager.count(), 0);
    assert_eq!(manager.default_language(), Language::En);
}

#[test]
fn test_manager_set_default_language() {
    let mut manager = AudioFileManager::new("/var/audio".to_string());
    manager.set_default_language(Language::Es);
    assert_eq!(manager.default_language(), Language::Es);
}

#[test]
fn test_manager_list_operations() {
    let manager = AudioFileManager::new("/var/audio".to_string());
    assert_eq!(manager.list_ids().len(), 0);
    assert_eq!(manager.list_languages().len(), 0);
}

#[test]
fn prompts_fall_back_to_the_default_language() {
    let mut manager = AudioFileManager::new("/var/audio".to_string());
    manager.insert("welcome", Language::En, tone(1));
    manager.insert("welcome", Language::Fr, tone(2));
    manager.insert("goodbye", Language::En, tone(3));
    assert_eq!(manager.count(), 3);
    assert_eq!(manager.get_with_fallback("welcome", Language::Fr).unwrap().data[0], 2);
    assert_eq!(manager.get_with_fallback("goodbye", Language::Fr).unwrap().data[0], 3);
    assert!(manager.get_with_fallback("menu", Language::Fr).is_none());
    assert_eq!(manager.list_ids(), vec!["goodbye".to_string(), "welcome".to_string()]);
    assert_eq!(manager.list_languages(), vec![Language::En, Language::Fr]);
    manager.insert("welcome", Language::Fr, tone(4));
    assert_eq!(manager.count(), 3);
    assert_eq!(manager.get("welcome", Language::Fr).unwrap().data[0], 4);
    manager.remove("welcome", Language::En);
    assert!(!manager.is_loaded("welcome", Language::En));
    assert!(manager.get_default("welcome").is_none());
    manager.clear();
    assert_eq!(manager.count(), 0);
}
