use seance::hpgl::EmitPreconditionFailed;
use seance::job::SendToDeviceError;
use seance::planchette::{answer_job, describe_error, read_response, PlanchetteError};

#[test]
fn answers_are_read_by_their_status() {
    assert_eq!(read_response(200, Some("ignored".to_string())), Ok(()));
    assert_eq!(read_response(404, None), Ok(()));
    assert_eq!(
        read_response(400, Some("Error parsing design: no".to_string())),
        Err(PlanchetteError::BadRequest("Error parsing design: no".to_string()))
    );
    assert_eq!(read_response(400, None), Err(PlanchetteError::BadRequest("Unknown Error".to_string())));
    assert_eq!(
        read_response(500, Some("lp0 is gone".to_string())),
        Err(PlanchetteError::ServerError("lp0 is gone".to_string()))
    );
    assert_eq!(read_response(500, None), Err(PlanchetteError::ServerError("Unknown Error".to_string())));
}

#[test]
fn errors_are_described() {
    let details = "why".to_string();
    assert_eq!(
        describe_error(PlanchetteError::FailedToCreateRequest(details.clone())),
        ("Failed to construct request to laser cutter server", details.clone())
    );
    assert_eq!(
        describe_error(PlanchetteError::FailedToSendRequest(details.clone())),
        ("Failed to send request to laser cutter server", details.clone())
    );
    assert_eq!(
        describe_error(PlanchetteError::BadRequest(details.clone())),
        ("Server rejected the design file", details.clone())
    );
    assert_eq!(
        describe_error(PlanchetteError::ServerError(details.clone())),
        ("Server encountered an error", details)
    );
}

#[test]
fn jobs_are_answered() {
    assert_eq!(answer_job(Ok(())), (200, String::new()));
    assert_eq!(
        answer_job(Err(SendToDeviceError::ErrorParsingSvg("not XML".to_string()))),
        (400, "Error parsing design: not XML".to_string())
    );
    assert_eq!(
        answer_job(Err(SendToDeviceError::FailedToWriteToPrinter("no device".to_string()))),
        (500, "no device".to_string())
    );
    assert_eq!(
        answer_job(Err(SendToDeviceError::GenerateHpglError(EmitPreconditionFailed::NoPassEnabled))),
        (400, "No tool passes enabled".to_string())
    );
    assert_eq!(
        answer_job(Err(SendToDeviceError::GenerateHpglError(EmitPreconditionFailed::NotSixteenPasses))),
        (400, "Exactly 16 tool passes are required".to_string())
    );
}
