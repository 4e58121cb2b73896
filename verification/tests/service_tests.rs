use softerworld::errors::{Elem, ServiceError};
use softerworld::service::{warm_plan, CacheKey};

#[test]
fn key_codes_are_distinct() {
    let keys = [
        CacheKey::MaxId,
        CacheKey::Feed,
        CacheKey::Comic(None),
        CacheKey::Comic(Some(0)),
        CacheKey::Comic(Some(1)),
        CacheKey::Comic(Some(u32::MAX)),
    ];
    for (i, a) in keys.iter().enumerate() {
        for (j, b) in keys.iter().enumerate() {
            if i != j {
                assert_ne!(a.encode(), b.encode());
            }
        }
    }
}

#[test]
fn warm_plan_walks_ids_ascending() {
    assert_eq!(warm_plan(&Ok(5)), vec![1, 2, 3, 4, 5]);
    assert_eq!(warm_plan(&Ok(1)), vec![1]);
    assert_eq!(warm_plan(&Ok(0)), Vec::<u32>::new());
}

#[test]
fn warm_plan_skips_cycle_on_error() {
    let failed: Result<u32, ServiceError> = Err(ServiceError::Fetch("down".to_string()));
    assert_eq!(warm_plan(&failed), Vec::<u32>::new());
}

#[test]
fn error_messages_name_the_missing_piece() {
    assert_eq!(
        ServiceError::Fetch("timed out".to_string()).message(),
        "timed out"
    );
    assert_eq!(
        ServiceError::NotFound(Elem::Container).message(),
        "could not find the comic container"
    );
    assert_eq!(
        ServiceError::SeedRange.message(),
        "the maximum id is zero"
    );
}
