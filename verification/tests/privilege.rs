use langateway::privilege::{elevation_command, elevation_error};

#[test]
fn elevation_command_runs_the_program_elevated() {
    assert_eq!(
        elevation_command("C:\\Tools\\langateway.exe", "C:\\Tools"),
        "Start-Process -FilePath 'C:\\Tools\\langateway.exe' -WorkingDirectory 'C:\\Tools' -Verb RunAs"
    );
}

#[test]
fn silent_failure_means_cancelled() {
    assert_eq!(elevation_error(""), "UAC elevation was cancelled.");
    assert_eq!(elevation_error("  \r\n"), "UAC elevation was cancelled.");
    assert_eq!(elevation_error(" Access denied\r\n"), "UAC elevation failed: Access denied");
}
