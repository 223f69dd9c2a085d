//! Status messages of the camera SDK's numeric return codes.

use vstd::prelude::*;

verus! {

/// The text belonging to the numeric status code `code`.
pub open spec fn status_message(code: i32) -> Seq<char> {
    match code {
        0 => "OK"@,
        -1 => "DEVICE_IS_LIMBO"@,
        -2 => "INVALID_DEVICE_INDEX"@,
        -3 => "DEVICE_POINTER_IS_NULL"@,
        -4 => "INVALID_FRAME_TYPE"@,
        -5 => "FRAME_POINTER_IS_NULL"@,
        -6 => "NO_PROPERTY_VALUE_GET"@,
        -7 => "NO_PROPERTY_VALUE_SET"@,
        -8 => "PROPERTY_POINTER_IS_NULL"@,
        -9 => "PROPERTY_SIZE_NOT_ENOUGH"@,
        -10 => "INVALID_DEPTH_RANGE"@,
        -11 => "GET_FRAME_READY_TIME_OUT"@,
        -12 => "INPUT_POINTER_IS_NULL"@,
        -13 => "CAMERA_NOT_OPENED"@,
        -14 => "INVALID_CAMERA_TYPE"@,
        -15 => "INVALID_PARAMS"@,
        -16 => "CURRENT_VERSION_NOT_SUPPORT"@,
        -17 => "UPGRADE_IMG_ERROR"@,
        -18 => "UPGRADE_IMG_PATH_TOO_LONG"@,
        -19 => "UPGRADE_CALLBACK_NOT_SET"@,
        -20 => "PRODUCT_NOT_SUPPORT"@,
        -21 => "NO_CONFIG_FOLDER"@,
        -22 => "WEB_SERVER_START_ERROR"@,
        -23 => "GET_OVER_STAY_FRAME"@,
        -24 => "CREATE_LOG_DIR_ERROR"@,
        -25 => "CREATE_LOG_FILE_ERROR"@,
        -100 => "NO_ADAPTER_CONNECTED"@,
        -101 => "REINITIALIZED"@,
        -102 => "NO_INITIALIZED"@,
        -103 => "CAMERA_OPENED"@,
        -104 => "CMD_ERROR"@,
        -105 => "CMD_SYNC_TIME_OUT"@,
        -106 => "IP_NOT_MATCH"@,
        -107 => "NOT_STOP_STREAM"@,
        -108 => "NOT_START_STREAM"@,
        -109 => "NOT_FIND_DRIVERS_FOLDER"@,
        -110 => "CAMERA_OPENING"@,
        -111 => "CAMERA_OPENED_BY_ANOTHER_APP"@,
        -112 => "GET_AI_RESULT_TIME_OUT"@,
        -113 => "MORPH_AI_LIB_ERROR"@,
        -114 => "CPU_AFFINITY_CHECK_FAILED"@,
        -255 => "OTHERS"@,
        _ => "_"@,
    }
}

/// The status message for the numeric code a camera SDK call returned.
pub fn get_message(code: i32) -> (r: &'static str)
    ensures
        r@ == status_message(code),
{
    match code {
        0 => "OK",
        -1 => "DEVICE_IS_LIMBO",
        -2 => "INVALID_DEVICE_INDEX",
        -3 => "DEVICE_POINTER_IS_NULL",
        -4 => "INVALID_FRAME_TYPE",
        -5 => "FRAME_POINTER_IS_NULL",
        -6 => "NO_PROPERTY_VALUE_GET",
        -7 => "NO_PROPERTY_VALUE_SET",
        -8 => "PROPERTY_POINTER_IS_NULL",
        -9 => "PROPERTY_SIZE_NOT_ENOUGH",
        -10 => "INVALID_DEPTH_RANGE",
        -11 => "GET_FRAME_READY_TIME_OUT",
        -12 => "INPUT_POINTER_IS_NULL",
        -13 => "CAMERA_NOT_OPENED",
        -14 => "INVALID_CAMERA_TYPE",
        -15 => "INVALID_PARAMS",
        -16 => "CURRENT_VERSION_NOT_SUPPORT",
        -17 => "UPGRADE_IMG_ERROR",
        -18 => "UPGRADE_IMG_PATH_TOO_LONG",
        -19 => "UPGRADE_CALLBACK_NOT_SET",
        -20 => "PRODUCT_NOT_SUPPORT",
        -21 => "NO_CONFIG_FOLDER",
        -22 => "WEB_SERVER_START_ERROR",
        -23 => "GET_OVER_STAY_FRAME",
        -24 => "CREATE_LOG_DIR_ERROR",
        -25 => "CREATE_LOG_FILE_ERROR",
        -100 => "NO_ADAPTER_CONNECTED",
        -101 => "REINITIALIZED",
        -102 => "NO_INITIALIZED",
        -103 => "CAMERA_OPENED",
        -104 => "CMD_ERROR",
        -105 => "CMD_SYNC_TIME_OUT",
        -106 => "IP_NOT_MATCH",
        -107 => "NOT_STOP_STREAM",
        -108 => "NOT_START_STREAM",
        -109 => "NOT_FIND_DRIVERS_FOLDER",
        -110 => "CAMERA_OPENING",
        -111 => "CAMERA_OPENED_BY_ANOTHER_APP",
        -112 => "GET_AI_RESULT_TIME_OUT",
        -113 => "MORPH_AI_LIB_ERROR",
        -114 => "CPU_AFFINITY_CHECK_FAILED",
        -255 => "OTHERS",
        _ => "_",
    }
}

} // verus!
