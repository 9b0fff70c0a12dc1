use assetiweave::assets::{
    check_asset_delete, check_asset_description_update, normalize_asset_description, normalize_batch_asset_ids,
    plan_batch_mount_item, run_batch_items, BatchItemStep, BatchMountRun,
};
use assetiweave::error::AppError;

#[test]
fn assets_batch_cancel_is_checked_before_the_next_item() {
    let asset_ids = vec![
        "asset-a".to_string(),
        "asset-b".to_string(),
        "asset-c".to_string(),
    ];
    let mut started = Vec::new();
    let result = run_batch_items(
        &asset_ids,
        &mut |index, _, _| {
            if index == 1 {
                return Err(AppError::Cancelled("batch cancelled".to_string()));
            }
            Ok(())
        },
        |asset_id: &str| {
            started.push(asset_id.to_string());
            Ok::<_, AppError>(asset_id.to_string())
        },
    );

    assert!(matches!(result, Err(AppError::Cancelled(_))));
    assert_eq!(started, vec!["asset-a"]);
}

#[test]
fn assets_tests_batch_cancel_is_checked_before_the_next_item() {
    let asset_ids = vec![
        "asset-a".to_string(),
        "asset-b".to_string(),
        "asset-c".to_string(),
    ];
    let mut started = Vec::new();
    let result = run_batch_items(
        &asset_ids,
        &mut |index, _, _| {
            if index == 1 {
                return Err(AppError::Cancelled("batch cancelled".to_string()));
            }
            Ok(())
        },
        |asset_id: &str| {
            started.push(asset_id.to_string());
            Ok::<_, AppError>(asset_id.to_string())
        },
    );

    assert!(matches!(result, Err(AppError::Cancelled(_))));
    assert_eq!(started, vec!["asset-a"]);
}

#[test]
fn batch_counts_every_item_once() {
    let asset_ids = vec!["a".to_string(), "b".to_string(), "c".to_string()];
    let mut run: BatchMountRun<String> = BatchMountRun::start(asset_ids);
    let mut seen = Vec::new();
    while let Some((index, total, asset_id)) = run.next_item() {
        assert_eq!(total, 3);
        seen.push((index, asset_id.clone()));
        if asset_id == "b" {
            run.record(Err(AppError::NotFound("asset not found: b".to_string())));
        } else {
            run.record(Ok(asset_id));
        }
    }
    let result = run.finish();
    assert_eq!(seen, vec![(0, "a".to_string()), (1, "b".to_string()), (2, "c".to_string())]);
    assert_eq!(result.requested_count, 3);
    assert_eq!(result.updated_count, 2);
    assert_eq!(result.error_count, 1);
    assert_eq!(result.results, vec!["a".to_string(), "c".to_string()]);
    assert_eq!(result.errors.len(), 1);
    assert_eq!(result.errors[0].asset_id, "b");
    assert_eq!(result.errors[0].message, "asset not found: b");
}

#[test]
fn batch_ids_are_trimmed_merged_and_sorted() {
    let ids = vec![
        " asset-b ".to_string(),
        "".to_string(),
        "asset-a".to_string(),
        "   ".to_string(),
        "asset-b".to_string(),
    ];
    let normalized = normalize_batch_asset_ids(&ids).ok().unwrap();
    assert_eq!(normalized, vec!["asset-a".to_string(), "asset-b".to_string()]);
}

#[test]
fn batch_without_ids_is_refused() {
    let ids = vec!["  ".to_string(), "".to_string()];
    match normalize_batch_asset_ids(&ids) {
        Err(AppError::Validation(message)) => {
            assert_eq!(message, "asset_ids are required for explicit batch mount")
        }
        _ => panic!("expected a validation error"),
    }
    assert!(normalize_batch_asset_ids(&Vec::new()).is_err());
}

#[test]
fn batch_item_steps() {
    match plan_batch_mount_item("x", None, true, true) {
        BatchItemStep::Fail(AppError::NotFound(message)) => assert_eq!(message, "asset not found: x"),
        _ => panic!("expected a missing asset"),
    }
    assert!(matches!(
        plan_batch_mount_item("x", Some("s".to_string()), false, false),
        BatchItemStep::Unmount
    ));
    assert!(matches!(
        plan_batch_mount_item("x", Some("s".to_string()), true, true),
        BatchItemStep::Mount
    ));
    match plan_batch_mount_item("x", Some("src-1".to_string()), true, false) {
        BatchItemStep::Fail(AppError::NotFound(message)) => assert_eq!(message, "source not found: src-1"),
        _ => panic!("expected a missing source"),
    }
}

#[test]
fn asset_description_is_trimmed_and_blank_is_dropped() {
    assert_eq!(normalize_asset_description(Some("  Handy skill \n".to_string())), Some("Handy skill".to_string()));
    assert_eq!(normalize_asset_description(Some("   ".to_string())), None);
    assert_eq!(normalize_asset_description(None), None);
}

#[test]
fn asset_description_update_checks_in_order() {
    match check_asset_description_update("a-1", None, false, false, "/x") {
        Err(AppError::NotFound(m)) => assert_eq!(m, "asset not found: a-1"),
        _ => panic!("expected a missing asset"),
    }
    match check_asset_description_update("a-1", Some("s-1".to_string()), false, false, "/x") {
        Err(AppError::NotFound(m)) => assert_eq!(m, "source not found: s-1"),
        _ => panic!("expected a missing source"),
    }
    match check_asset_description_update("a-1", Some("s-1".to_string()), true, false, "~/skills/a") {
        Err(AppError::NotFound(m)) => assert_eq!(m, "asset source path does not exist: ~/skills/a"),
        _ => panic!("expected a missing path"),
    }
    assert!(check_asset_description_update("a-1", Some("s-1".to_string()), true, true, "/x").is_ok());
}

#[test]
fn only_skill_assets_can_be_deleted() {
    match check_asset_delete("a-9", None) {
        Err(AppError::NotFound(m)) => assert_eq!(m, "asset not found: a-9"),
        _ => panic!("expected a missing asset"),
    }
    match check_asset_delete("a-9", Some(false)) {
        Err(AppError::Validation(m)) => assert_eq!(m, "only skill assets can be deleted from the catalog"),
        _ => panic!("expected a refusal"),
    }
    assert!(check_asset_delete("a-9", Some(true)).is_ok());
}

#[test]
fn batch_items_keep_results_and_failures() {
    let ids = vec!["a".to_string(), "b".to_string(), "c".to_string()];
    let mut seen = Vec::new();
    let result = run_batch_items(
        &ids,
        &mut |index: usize, total: usize, id: &str| {
            seen.push((index, total, id.to_string()));
            Ok(())
        },
        |id: &str| {
            if id == "b" {
                Err(AppError::NotFound("asset not found: b".to_string()))
            } else {
                Ok(id.to_uppercase())
            }
        },
    );
    let (results, errors) = result.ok().unwrap();
    assert_eq!(results, vec!["A".to_string(), "C".to_string()]);
    assert_eq!(errors.len(), 1);
    assert_eq!(errors[0].asset_id, "b");
    assert_eq!(errors[0].message, "asset not found: b");
    assert_eq!(seen, vec![(0, 3, "a".to_string()), (1, 3, "b".to_string()), (2, 3, "c".to_string())]);
}
