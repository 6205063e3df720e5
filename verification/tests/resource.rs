use chip8::{ResourceLoader, ResourceManager};
use std::cell::{Cell, RefCell};
use std::rc::Rc;

struct Lengths {
    calls: Cell<usize>,
    asked: RefCell<Vec<String>>,
}

impl Lengths {
    fn new() -> Lengths {
        Lengths { calls: Cell::new(0), asked: RefCell::new(Vec::new()) }
    }
}

impl<'l> ResourceLoader<'l, usize> for Lengths {
    type Args = str;

    fn load(&'l self, data: &str) -> Result<usize, String> {
        self.calls.set(self.calls.get() + 1);
        self.asked.borrow_mut().push(data.to_string());
        if data.is_empty() {
            Err("nothing to load".to_string())
        } else {
            Ok(data.len())
        }
    }
}

#[test]
fn new_manager_asks_nothing() {
    let loader = Lengths::new();
    let _manager: ResourceManager<String, usize, Lengths> = ResourceManager::new(&loader);
    assert_eq!(loader.calls.get(), 0);
}

#[test]
fn load_asks_the_loader_with_the_details() {
    let loader = Lengths::new();
    let mut manager: ResourceManager<String, usize, Lengths> = ResourceManager::new(&loader);
    assert_eq!(manager.load("sprite.png").map(|rc| *rc), Ok(10));
    assert_eq!(*loader.asked.borrow(), vec!["sprite.png".to_string()]);
}

#[test]
fn load_asks_the_loader_once_per_key() {
    let loader = Lengths::new();
    let mut manager: ResourceManager<String, usize, Lengths> = ResourceManager::new(&loader);
    let first = manager.load("tiles").unwrap();
    let second = manager.load("tiles").unwrap();
    assert_eq!(loader.calls.get(), 1);
    assert!(Rc::ptr_eq(&first, &second));
    assert_eq!(*first, 5);
    let other = manager.load("font").unwrap();
    assert_eq!(loader.calls.get(), 2);
    assert_eq!(*other, 4);
    assert!(!Rc::ptr_eq(&first, &other));
    manager.load("tiles").unwrap();
    manager.load("font").unwrap();
    assert_eq!(loader.calls.get(), 2);
}

#[test]
fn loaded_resource_is_shared_with_the_cache() {
    let loader = Lengths::new();
    let mut manager: ResourceManager<String, usize, Lengths> = ResourceManager::new(&loader);
    let first = manager.load("abc").unwrap();
    assert_eq!(Rc::strong_count(&first), 2);
    let second = manager.load("abc").unwrap();
    assert_eq!(Rc::strong_count(&first), 3);
    drop(second);
    assert_eq!(Rc::strong_count(&first), 2);
}

#[test]
fn failed_load_is_not_kept() {
    let loader = Lengths::new();
    let mut manager: ResourceManager<String, usize, Lengths> = ResourceManager::new(&loader);
    assert_eq!(manager.load(""), Err("nothing to load".to_string()));
    assert!(manager.cached("").is_none());
    assert_eq!(manager.load(""), Err("nothing to load".to_string()));
    assert_eq!(loader.calls.get(), 2);
}

#[test]
fn cached_finds_only_what_was_loaded() {
    let loader = Lengths::new();
    let mut manager: ResourceManager<String, usize, Lengths> = ResourceManager::new(&loader);
    assert!(manager.cached("a").is_none());
    let loaded = manager.load("a").unwrap();
    let found = manager.cached("a").unwrap();
    assert!(Rc::ptr_eq(&loaded, &found));
    assert!(manager.cached("b").is_none());
    assert_eq!(loader.calls.get(), 1);
}

#[test]
fn keep_stores_a_resource_under_the_key_of_the_details() {
    let loader = Lengths::new();
    let mut manager: ResourceManager<String, usize, Lengths> = ResourceManager::new(&loader);
    let kept = manager.keep("seven", Ok(7)).unwrap();
    assert_eq!(*kept, 7);
    let found = manager.load("seven").unwrap();
    assert!(Rc::ptr_eq(&kept, &found));
    assert_eq!(loader.calls.get(), 0);
}

#[test]
fn keep_hands_an_error_back() {
    let loader = Lengths::new();
    let mut manager: ResourceManager<String, usize, Lengths> = ResourceManager::new(&loader);
    assert_eq!(manager.keep("x", Err("broken".to_string())), Err("broken".to_string()));
    assert!(manager.cached("x").is_none());
}
