use deadline_checker::plot::{
    plan_scoop_reads, plot_format, plot_name_is_readable, read_plot_name, PlotCheckError, PlotFileName, PlotFormat,
    PlotReadPlan,
};

#[test]
fn plot_formats() {
    assert_eq!(plot_format("123_0_100"), Some(PlotFormat::Poc2));
    assert_eq!(plot_format("123_0_100_100"), Some(PlotFormat::Poc1));
    assert_eq!(plot_format("123_0"), None);
    assert_eq!(plot_format("plot"), None);
    assert_eq!(plot_format("1_2_3_4_5"), None);
}

#[test]
fn plot_names() {
    assert_eq!(
        read_plot_name("123_8_100", 123),
        Ok(PlotFileName { account_id: 123, start_nonce: 8, nonces: 100, format: PlotFormat::Poc2 })
    );
    assert_eq!(
        read_plot_name("123_8_100_100", 123),
        Ok(PlotFileName { account_id: 123, start_nonce: 8, nonces: 100, format: PlotFormat::Poc1 })
    );
    assert_eq!(read_plot_name("123_8_100_50", 123), Err(PlotCheckError::Unoptimized));
    assert_eq!(read_plot_name("123_8", 123), Err(PlotCheckError::UnknownFormat));
    assert_eq!(read_plot_name("124_8_100", 123), Err(PlotCheckError::IdMismatch));
    // an id mismatch is found before a bad start nonce is read
    assert_eq!(read_plot_name("124_x_100", 123), Err(PlotCheckError::IdMismatch));
    assert!(plot_name_is_readable("124_x_100", 123));
    // a part that has to be read and is not a number makes the name unreadable
    assert!(!plot_name_is_readable("123_x_100", 123));
    assert!(!plot_name_is_readable("x_8_100_y", 123));
    assert!(!plot_name_is_readable("123__100", 123));
    assert!(!plot_name_is_readable("x_8_100_100", 123));
    // unknown formats and unoptimized files are told apart before numbers are read
    assert!(plot_name_is_readable("x_y", 123));
    assert!(plot_name_is_readable("x_8_100_50", 123));
    assert_eq!(read_plot_name("x_8_100_50", 123), Err(PlotCheckError::Unoptimized));
    assert!(plot_name_is_readable("123_8_100", 123));
}

#[test]
fn scoop_read_plans() {
    let plot = PlotFileName { account_id: 1, start_nonce: 1000, nonces: 10, format: PlotFormat::Poc2 };
    let size = 10 * 262144;
    assert_eq!(
        plan_scoop_reads(&plot, 1003, 5, size + 1),
        Err(PlotCheckError::SizeMismatch { expected: size, actual: size + 1 })
    );
    assert_eq!(plan_scoop_reads(&plot, 999, 5, size), Err(PlotCheckError::NonceNotInFile));
    assert_eq!(plan_scoop_reads(&plot, 1010, 5, size), Err(PlotCheckError::NonceNotInFile));
    assert_eq!(
        plan_scoop_reads(&plot, 1003, 5, size),
        Ok(PlotReadPlan { scoop_offset: 5 * 262144 + 3 * 64, mirror_offset: 4090 * 262144 + 3 * 64 + 32 })
    );
    assert_eq!(
        plan_scoop_reads(&plot, 1000, 0, size),
        Ok(PlotReadPlan { scoop_offset: 0, mirror_offset: 4095 * 262144 + 32 })
    );
}
