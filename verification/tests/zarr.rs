use daq_core::storage::zarr::{ZarrArrayBuilder, ZarrArrays, ZarrDataType};

fn err_of(b: ZarrArrayBuilder) -> String {
    match b.validate() {
        Ok(_) => panic!("expected a refusal"),
        Err(e) => e,
    }
}

#[test]
fn test_validation_errors() {
    let missing_name = err_of(ZarrArrayBuilder::new().shape(vec![10]).chunks(vec![10]).dtype_f64());
    assert!(missing_name.contains("name"));
    assert_eq!(missing_name, "Array name is required");

    let bad_dims = err_of(ZarrArrayBuilder::new().name("bad_dims").shape(vec![10, 10]).chunks(vec![10]).dtype_f64());
    assert_eq!(bad_dims, "Shape dimensions (2) must match chunk dimensions (1)");

    let bad_names = err_of(
        ZarrArrayBuilder::new()
            .name("bad_names")
            .shape(vec![10, 10])
            .chunks(vec![10, 10])
            .dimensions(vec!["x".to_string()])
            .dtype_f64(),
    );
    assert_eq!(bad_names, "Dimension names (1) must match shape dimensions (2)");
}

#[test]
fn test_write_nonexistent_array_error() {
    let arrays = ZarrArrays::new();
    let err = arrays.array_path("nonexistent").err().unwrap();
    assert!(err.contains("not found"));
    assert_eq!(err, "Array 'nonexistent' not found");
}

#[test]
fn missing_parts_are_reported_in_order() {
    assert_eq!(err_of(ZarrArrayBuilder::new()), "Array name is required");
    assert_eq!(err_of(ZarrArrayBuilder::new().name("a")), "Array shape is required");
    assert_eq!(err_of(ZarrArrayBuilder::new().name("a").shape(vec![1])), "Chunk sizes are required");
    assert_eq!(err_of(ZarrArrayBuilder::new().name("a").shape(vec![1]).chunks(vec![1])), "Data type is required");
}

#[test]
fn valid_requests_become_plans() {
    let plan = match ZarrArrayBuilder::new()
        .name("camera_frames")
        .shape(vec![10, 5, 256, 256])
        .chunks(vec![10, 1, 256, 256])
        .dimensions(vec!["wavelength".to_string(), "position".to_string(), "y".to_string(), "x".to_string()])
        .dtype_u16()
        .attribute("units", serde_json::Value::from("counts"))
        .validate()
    {
        Ok(plan) => plan,
        Err(e) => panic!("{}", e),
    };
    assert_eq!(plan.path, "/camera_frames");
    assert_eq!(plan.data_type, ZarrDataType::UInt16);
    assert_eq!(plan.attributes.len(), 2);
    assert_eq!(plan.attributes[0].0, "units");
    assert_eq!(plan.attributes[1].0, "_ARRAY_DIMENSIONS");
    assert_eq!(plan.attributes[1].1, serde_json::Value::from(vec!["wavelength", "position", "y", "x"]));

    let mut arrays = ZarrArrays::new();
    arrays.register(&plan);
    assert_eq!(arrays.array_path("camera_frames").ok(), Some("/camera_frames".to_string()));

    let plain = match ZarrArrayBuilder::new().name("t").shape(vec![3]).chunks(vec![3]).dtype_f64().validate() {
        Ok(plan) => plan,
        Err(e) => panic!("{}", e),
    };
    assert!(plain.attributes.is_empty());
    assert!(plain.dimension_names.is_none());
}
