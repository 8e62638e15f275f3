//! AppleScript sources: literals that hold arbitrary text, and the scripts that
//! collect a diagnostic report and handle a disconnected session.

use crate::diagnose::{
    MAX_DIAGNOSTIC_COLLECTION_ELEMENTS, MAX_DIAGNOSTIC_COLLECTION_WINDOWS,
    MAX_DIAGNOSTIC_PROTOCOL_VALUE_CHARS,
};
#[allow(unused_imports)]
use crate::text::decimal;
use crate::text::{decimal_of, to_chars};
use vstd::prelude::*;
#[allow(unused_imports)]
use vstd::string::StringExecFns;

verus! {

pub const MAX_SECURE_FIELD_TRAVERSAL_DEPTH: usize = 4;

pub const MAX_SECURE_FIELD_TRAVERSAL_ELEMENTS: usize = 24;

pub const MAX_SECURE_FIELDS: usize = 8;

/// The diagnostic script before its traversal depth.
pub const COLLECT_DEPTH: &'static str = "
	property secureTraversalCount : 0
	property secureFieldCount : 0
	property secureTraversalTruncated : false
	property diagnosticWindowCount : 0
	property diagnosticElementCount : 0
	property diagnosticCollectionTruncated : false
	property maxSecureTraversalDepth : ";

/// The diagnostic script before its traversal size.
pub const COLLECT_ELEMENTS: &'static str = "
	property maxSecureTraversalElements : ";

/// The diagnostic script before its secure field count.
pub const COLLECT_FIELDS: &'static str = "
	property maxSecureFields : ";

/// The diagnostic script before its window count.
pub const COLLECT_WINDOWS: &'static str = "
	property maxDiagnosticWindows : ";

/// The diagnostic script before its element count.
pub const COLLECT_DIAGNOSTIC_ELEMENTS: &'static str = "
	property maxDiagnosticElements : ";

/// The diagnostic script before its value length.
pub const COLLECT_VALUE_CHARS: &'static str = "
	property maxDiagnosticValueChars : ";

/// The diagnostic script before its target name.
pub const COLLECT_TARGET_NAME: &'static str = r#"

	on diagnosticValue(rawValue)
	    set textValue to rawValue as string
	    if (length of textValue) > maxDiagnosticValueChars then
	        set textValue to (text 1 thru maxDiagnosticValueChars of textValue) & "[truncated]"
	    end if
	    set textValue to my replaceDiagnosticText(textValue, "%", "%25")
    set textValue to my replaceDiagnosticText(textValue, "|", "%7C")
    set textValue to my replaceDiagnosticText(textValue, "=", "%3D")
    set textValue to my replaceDiagnosticText(textValue, return, "%0D")
    set textValue to my replaceDiagnosticText(textValue, linefeed, "%0A")
    set textValue to my replaceDiagnosticText(textValue, tab, "%09")
	    return textValue
	end diagnosticValue

	on reserveDiagnosticWindow()
	    if diagnosticCollectionTruncated then return false
	    if diagnosticWindowCount >= maxDiagnosticWindows then
	        set diagnosticCollectionTruncated to true
	        return false
	    end if
	    set diagnosticWindowCount to diagnosticWindowCount + 1
	    return true
	end reserveDiagnosticWindow

	on reserveDiagnosticElement()
	    if diagnosticCollectionTruncated then return false
	    if diagnosticElementCount >= maxDiagnosticElements then
	        set diagnosticCollectionTruncated to true
	        return false
	    end if
	    set diagnosticElementCount to diagnosticElementCount + 1
	    return true
	end reserveDiagnosticElement

on replaceDiagnosticText(textValue, oldText, newText)
    set AppleScript's text item delimiters to oldText
    set textParts to text items of textValue
    set AppleScript's text item delimiters to newText
    set textValue to textParts as string
    set AppleScript's text item delimiters to ""
    return textValue
end replaceDiagnosticText

on processMatches(procRef, expectedName, trustedPIDs)
    tell application "System Events"
        try
            if (name of procRef as string) is not expectedName then return false
            set procPID to unix id of procRef as string
            repeat with trustedPID in trustedPIDs
                if procPID is (trustedPID as string) then return true
            end repeat
            return false
        on error
            return false
        end try
    end tell
end processMatches

on elementRoleText(elem)
    tell application "System Events"
        set roleText to ""
        try
            set roleText to roleText & " " & (role description of elem as string)
        end try
    end tell
    return roleText
end elementRoleText

on elementIsSecureTextField(elem)
    set roleText to my elementRoleText(elem)
    set labelText to my elementLabelText(elem)
    ignoring case
        if roleText contains "AXSecureTextField" then return true
        if roleText contains "secure text field" then return true
        if roleText contains "securetextfield" then return true
        if (roleText contains "AXTextField") and (roleText contains "secure") then return true
        if my roleLooksLikeTextField(roleText) and my textContainsPasswordCue(labelText) then return true
    end ignoring
    return false
end elementIsSecureTextField

on elementIsHidden(elem)
    tell application "System Events"
        try
            return (value of attribute "AXHidden" of elem) as boolean
        on error
            return false
        end try
    end tell
end elementIsHidden

on elementLabelText(elem)
    tell application "System Events"
        set labelText to ""
        try
            set labelText to labelText & " " & (name of elem as string)
        end try
        try
            set labelText to labelText & " " & (value of attribute "AXTitle" of elem as string)
        end try
        try
            set labelText to labelText & " " & (value of attribute "AXPlaceholderValue" of elem as string)
        end try
    end tell
    return labelText
end elementLabelText

on roleLooksLikeTextField(roleText)
    ignoring case
        if roleText contains "AXTextField" then return true
        if roleText contains "text field" then return true
    end ignoring
    return false
end roleLooksLikeTextField

on textContainsPasswordCue(textValue)
    ignoring case
        if textValue contains "password" then return true
        if textValue contains "passwort" then return true
        if textValue contains "kennwort" then return true
        if textValue contains "mot de passe" then return true
        if textValue contains "contraseña" then return true
        if textValue contains "contrasena" then return true
        if textValue contains "hasło" then return true
        if textValue contains "haslo" then return true
        if textValue contains "пароль" then return true
    end ignoring
    return false
end textContainsPasswordCue

on appendSecureTextFields(containerRef, currentOutput, currentDepth)
    set outputText to currentOutput
    if currentDepth > maxSecureTraversalDepth then
        set secureTraversalTruncated to true
        return outputText
    end if
    if secureTraversalCount >= maxSecureTraversalElements then
        set secureTraversalTruncated to true
        return outputText
    end if
    if secureFieldCount >= maxSecureFields then
        set secureTraversalTruncated to true
        return outputText
    end if
    tell application "System Events"
        try
            repeat with elem in (every UI element of containerRef)
                if secureTraversalCount >= maxSecureTraversalElements then
                    set secureTraversalTruncated to true
                    exit repeat
                end if
                if secureFieldCount >= maxSecureFields then
                    set secureTraversalTruncated to true
                    exit repeat
                end if
                if not my elementIsHidden(elem) then
                    set secureTraversalCount to secureTraversalCount + 1
                    if my elementIsSecureTextField(elem) then
                        if not my reserveDiagnosticElement() then exit repeat
                        try
                            set n to name of elem as string
                        on error
                            set n to ""
                        end try
                        set outputText to outputText & "ELEMENT:secure_text_field|name=" & my diagnosticValue(n)
                        try
                            set e to enabled of elem as string
                            set outputText to outputText & "|enabled=" & e
                        end try
                        set outputText to outputText & "\n"
                        set secureFieldCount to secureFieldCount + 1
                    else
                        try
                            set outputText to my appendSecureTextFields(elem, outputText, currentDepth + 1)
                        end try
                    end if
                end if
            end repeat
        end try
    end tell
    return outputText
end appendSecureTextFields

tell application "System Events"
    set output to ""
    
    -- ========== Target RDP processes ==========
    set targetName to "#;

/// The diagnostic script before its target pids.
pub const COLLECT_TARGET_PIDS: &'static str = "
    set targetPids to ";

/// The diagnostic script after the target pids.
pub const COLLECT_END: &'static str = r#"
    if (count of targetPids) > 0 then
        repeat with proc in (every application process)
            if diagnosticCollectionTruncated then exit repeat
            try
                if my processMatches(proc, targetName, targetPids) then
                if diagnosticCollectionTruncated then exit repeat
                set procName to name of proc
                try
                    set procPID to unix id of proc
                on error
                    set procPID to "unknown"
                end try
                set output to output & "PROCESS:" & my diagnosticValue(procName) & "|pid=" & my diagnosticValue(procPID) & "\n"
                
	                repeat with w in (every window of proc)
	                    try
	                        if my elementIsHidden(w) then error number -128
	                        if not my reserveDiagnosticWindow() then exit repeat
	                        set wName to name of w as string
                        set output to output & "WINDOW:" & my diagnosticValue(wName) & "\n"
                        
                        -- text fields (window level)
                        try
	                            repeat with elem in (every text field of w)
	                                try
	                                    if my elementIsHidden(elem) then error number -128
	                                    if not my reserveDiagnosticElement() then exit repeat
	                                    set n to name of elem as string
                                    set output to output & "ELEMENT:text_field|name=" & my diagnosticValue(n)
                                    try
                                        set e to enabled of elem as string
                                        set output to output & "|enabled=" & e
                                    end try
                                    set output to output & "\n"
                                end try
                            end repeat
                        end try

                        -- secure text fields (recursive)
                        try
                            set output to my appendSecureTextFields(w, output, 0)
                        end try
                        
                        -- buttons (window level)
                        try
	                            repeat with elem in (every button of w)
	                                try
	                                    if my elementIsHidden(elem) then error number -128
	                                    if not my reserveDiagnosticElement() then exit repeat
	                                    set n to name of elem as string
                                    set output to output & "ELEMENT:button|name=" & my diagnosticValue(n)
                                    try
                                        set e to enabled of elem as string
                                        set output to output & "|enabled=" & e
                                    end try
                                    set output to output & "\n"
                                end try
                            end repeat
                        end try
                        
                        -- static texts (window level)
                        try
	                            repeat with elem in (every static text of w)
	                                try
	                                    if my elementIsHidden(elem) then error number -128
	                                    if not my reserveDiagnosticElement() then exit repeat
	                                    set n to name of elem as string
                                    set output to output & "ELEMENT:static_text|name=" & my diagnosticValue(n) & "\n"
                                end try
                            end repeat
                        end try
                        
                        -- pop up buttons
                        try
	                            repeat with elem in (every pop up button of w)
	                                try
	                                    if my elementIsHidden(elem) then error number -128
	                                    if not my reserveDiagnosticElement() then exit repeat
	                                    set n to name of elem as string
                                    set output to output & "ELEMENT:pop_up_button|name=" & my diagnosticValue(n)
                                    set output to output & "\n"
                                end try
                            end repeat
                        end try
                        
                        -- checkboxes
                        try
	                            repeat with elem in (every checkbox of w)
	                                try
	                                    if my elementIsHidden(elem) then error number -128
	                                    if not my reserveDiagnosticElement() then exit repeat
	                                    set n to name of elem as string
                                    set output to output & "ELEMENT:check_box|name=" & my diagnosticValue(n)
                                    try
                                        set e to enabled of elem as string
                                        set output to output & "|enabled=" & e
                                    end try
                                    set output to output & "\n"
                                end try
                            end repeat
                        end try
                        
                        -- radio buttons
                        try
	                            repeat with elem in (every radio button of w)
	                                try
	                                    if my elementIsHidden(elem) then error number -128
	                                    if not my reserveDiagnosticElement() then exit repeat
	                                    set n to name of elem as string
                                    set output to output & "ELEMENT:radio_button|name=" & my diagnosticValue(n)
                                    try
                                        set e to enabled of elem as string
                                        set output to output & "|enabled=" & e
                                    end try
                                    set output to output & "\n"
                                end try
                            end repeat
                        end try
                        
                        -- groups (one level deep)
                        try
	                            repeat with grp in (every group of w)
	                                try
	                                    if my elementIsHidden(grp) then error number -128
	                                    if not my reserveDiagnosticElement() then exit repeat
	                                    set gName to name of grp as string
                                    set output to output & "GROUP:" & my diagnosticValue(gName) & "\n"
                                    
                                    try
	                                        repeat with elem in (every text field of grp)
	                                            try
	                                                if my elementIsHidden(elem) then error number -128
	                                                if not my reserveDiagnosticElement() then exit repeat
	                                                set n to name of elem as string
                                                set output to output & "ELEMENT:text_field|name=" & my diagnosticValue(n)
                                                try
                                                    set e to enabled of elem as string
                                                    set output to output & "|enabled=" & e
                                                end try
                                                set output to output & "\n"
                                            end try
                                        end repeat
                                    end try

                                    try
                                        set output to my appendSecureTextFields(grp, output, 0)
                                    end try
                                    
                                    try
	                                        repeat with elem in (every button of grp)
	                                            try
	                                                if my elementIsHidden(elem) then error number -128
	                                                if not my reserveDiagnosticElement() then exit repeat
	                                                set n to name of elem as string
                                                set output to output & "ELEMENT:button|name=" & my diagnosticValue(n)
                                                try
                                                    set e to enabled of elem as string
                                                    set output to output & "|enabled=" & e
                                                end try
                                                set output to output & "\n"
                                            end try
                                        end repeat
                                    end try
                                    
                                    try
	                                        repeat with elem in (every static text of grp)
	                                            try
	                                                if my elementIsHidden(elem) then error number -128
	                                                if not my reserveDiagnosticElement() then exit repeat
	                                                set n to name of elem as string
                                                set output to output & "ELEMENT:static_text|name=" & my diagnosticValue(n) & "\n"
                                            end try
                                        end repeat
                                    end try
                                end try
                            end repeat
                        end try
                        
                        -- sheets (one level deep)
                        try
	                            repeat with sh in (every sheet of w)
	                                try
	                                    if my elementIsHidden(sh) then error number -128
	                                    if not my reserveDiagnosticElement() then exit repeat
	                                    set sName to name of sh as string
                                    set output to output & "SHEET:" & my diagnosticValue(sName) & "\n"
                                    
                                    try
	                                        repeat with elem in (every text field of sh)
	                                            try
	                                                if my elementIsHidden(elem) then error number -128
	                                                if not my reserveDiagnosticElement() then exit repeat
	                                                set n to name of elem as string
                                                set output to output & "ELEMENT:text_field|name=" & my diagnosticValue(n)
                                                try
                                                    set e to enabled of elem as string
                                                    set output to output & "|enabled=" & e
                                                end try
                                                set output to output & "\n"
                                            end try
                                        end repeat
                                    end try

                                    try
                                        set output to my appendSecureTextFields(sh, output, 0)
                                    end try
                                    
                                    try
	                                        repeat with elem in (every button of sh)
	                                            try
	                                                if my elementIsHidden(elem) then error number -128
	                                                if not my reserveDiagnosticElement() then exit repeat
	                                                set n to name of elem as string
                                                set output to output & "ELEMENT:button|name=" & my diagnosticValue(n)
                                                try
                                                    set e to enabled of elem as string
                                                    set output to output & "|enabled=" & e
                                                end try
                                                set output to output & "\n"
                                            end try
                                        end repeat
                                    end try
                                    
                                    try
	                                        repeat with elem in (every static text of sh)
	                                            try
	                                                if my elementIsHidden(elem) then error number -128
	                                                if not my reserveDiagnosticElement() then exit repeat
	                                                set n to name of elem as string
                                                set output to output & "ELEMENT:static_text|name=" & my diagnosticValue(n) & "\n"
                                            end try
                                        end repeat
                                    end try
                                end try
                            end repeat
                        end try
                        
	                    on error errMsg number errNum
	                        if errNum is not -128 then set output to output & "WINDOW_ERROR:" & my diagnosticValue(errMsg) & "\n"
                    end try
                end repeat
                end if
            on error errMsg
                set output to output & "PROCESS_ERROR:" & my diagnosticValue(targetName) & "|" & my diagnosticValue(errMsg) & "\n"
            end try
        end repeat
    end if
    
    -- ========== System dialogs ==========
    set systemProcs to {"SecurityAgent", "loginwindow"}
    repeat with sysName in systemProcs
        if diagnosticCollectionTruncated then exit repeat
        try
            set procList to every application process whose name is sysName
            repeat with proc in procList
                if diagnosticCollectionTruncated then exit repeat
                set procName to name of proc
                set output to output & "SYSTEM_PROCESS:" & my diagnosticValue(procName) & "\n"
	                repeat with w in (every window of proc)
	                    try
	                        if my elementIsHidden(w) then error number -128
	                        if not my reserveDiagnosticWindow() then exit repeat
	                        set wName to name of w as string
                        set output to output & "WINDOW:" & my diagnosticValue(wName) & "\n"
	                        repeat with elem in (every UI element of w)
	                            try
	                                if my elementIsHidden(elem) then error number -128
	                                if not my reserveDiagnosticElement() then exit repeat
	                                set n to name of elem as string
                                set r to role description of elem as string
                                set output to output & "ELEMENT:" & my diagnosticValue(r) & "|name=" & my diagnosticValue(n)
                                set output to output & "\n"
                            on error
                            end try
                        end repeat
                    on error
                    end try
                end repeat
            end repeat
        on error
        end try
	    end repeat

	    if diagnosticCollectionTruncated then
	        set output to output & "TRUNCATED:collection\n"
	    end if
	    if secureTraversalTruncated then
	        set output to output & "TRUNCATED:secure-traversal\n"
	    end if
	    return output
	end tell
	"#;

/// The script that clicks a reconnect button, before the expected name.
pub const CLICK_NAME: &'static str = r#"
on processMatches(procRef, expectedName, trustedPIDs)
    tell application "System Events"
        try
            if (name of procRef as string) is not expectedName then return false
            set procPID to unix id of procRef as string
            repeat with trustedPID in trustedPIDs
                if procPID is (trustedPID as string) then return true
            end repeat
            return false
        on error
            return false
        end try
    end tell
end processMatches

on reconnectButtonNameMatches(buttonName)
    ignoring case
        if buttonName contains "Reconnect" then return true
        if buttonName contains "Retry" then return true
        if buttonName contains "Try Again" then return true
        if buttonName contains "Try again" then return true
        if buttonName contains "Повтор" then return true
    end ignoring
    return false
end reconnectButtonNameMatches

on disconnectContextMatches(containerRef, baseText)
    set contextText to baseText
    tell application "System Events"
        tell containerRef
            try
                repeat with t in (every static text)
                    try
                        set contextText to contextText & " " & (name of t as string)
                    end try
                    try
                        set contextText to contextText & " " & (value of t as string)
                    end try
                end repeat
            end try
        end tell
    end tell
    ignoring case
        if contextText contains "Disconnected" then return true
        if contextText contains "Connection lost" then return true
        if contextText contains "Unable to connect" then return true
        if contextText contains "Reconnect" then return true
        if contextText contains "Retry" then return true
        if contextText contains "Отключ" then return true
        if contextText contains "Повтор" then return true
    end ignoring
    return false
end disconnectContextMatches

on clickMatchingReconnectButton(buttonList)
    tell application "System Events"
        repeat with b in buttonList
            try
                set buttonName to name of b as string
                if my reconnectButtonNameMatches(buttonName) then
                    click b
                    return "clicked:" & buttonName
                end if
            end try
        end repeat
    end tell
    return ""
end clickMatchingReconnectButton

tell application "System Events"
    set expectedName to "#;

/// The script that clicks a reconnect button, before the trusted pids.
pub const CLICK_PIDS: &'static str = "
    set trustedPIDs to ";

/// The script that clicks a reconnect button, after the trusted pids.
pub const CLICK_END: &'static str = r#"
    set procList to every application process whose name is expectedName
    repeat with procRef in procList
        if my processMatches(procRef, expectedName, trustedPIDs) then
        repeat with w in every window of procRef
            set wName to name of w as string
            try
                if exists sheet 1 of w then
                    set s to sheet 1 of w
                    if my disconnectContextMatches(s, wName) then
                        set clickedButton to my clickMatchingReconnectButton(every button of s)
                        if clickedButton is not "" then return clickedButton
                    end if
                end if
            end try
            try
                if my disconnectContextMatches(w, wName) then
                    set clickedButton to my clickMatchingReconnectButton(every button of w)
                    if clickedButton is not "" then return clickedButton
                end if
            end try
        end repeat
        end if
    end repeat
end tell
"#;

/// The script that closes a disconnect dialog, before the expected name.
pub const CLOSE_NAME: &'static str = r#"
on processMatches(procRef, expectedName, trustedPIDs)
    tell application "System Events"
        try
            if (name of procRef as string) is not expectedName then return false
            set procPID to unix id of procRef as string
            repeat with trustedPID in trustedPIDs
                if procPID is (trustedPID as string) then return true
            end repeat
            return false
        on error
            return false
        end try
    end tell
end processMatches

on disconnectContextMatches(containerRef, baseText)
    set contextText to baseText
    tell application "System Events"
        tell containerRef
            try
                repeat with t in (every static text)
                    try
                        set contextText to contextText & " " & (name of t as string)
                    end try
                    try
                        set contextText to contextText & " " & (value of t as string)
                    end try
                end repeat
            end try
        end tell
    end tell
    ignoring case
        if contextText contains "Disconnected" then return true
        if contextText contains "Connection lost" then return true
        if contextText contains "Unable to connect" then return true
        if contextText contains "Reconnect" then return true
        if contextText contains "Retry" then return true
        if contextText contains "Отключ" then return true
        if contextText contains "Повтор" then return true
    end ignoring
    return false
end disconnectContextMatches

tell application "System Events"
    try
        set expectedName to "#;

/// The script that closes a disconnect dialog, before the trusted pids.
pub const CLOSE_PIDS: &'static str = "
        set trustedPIDs to ";

/// The script that closes a disconnect dialog, after the trusted pids.
pub const CLOSE_END: &'static str = r#"
        set buttonNames to {"OK", "Close", "Dismiss"}
        set procList to every application process whose name is expectedName
        repeat with procRef in procList
            if my processMatches(procRef, expectedName, trustedPIDs) then
            repeat with w in every window of procRef
                set wName to name of w as string
                repeat with buttonName in buttonNames
                    try
                        if exists sheet 1 of w then
                            set s to sheet 1 of w
                            if my disconnectContextMatches(s, wName) then
                                if exists (button (buttonName as string) of s) then
                                    click button (buttonName as string) of s
                                    return "clicked"
                                end if
                            end if
                        end if
                    end try
                    try
                        if my disconnectContextMatches(w, wName) and exists (button (buttonName as string) of w) then
                            click button (buttonName as string) of w
                            return "clicked"
                        end if
                    end try
                end repeat
            end repeat
            end if
        end repeat
    end try
    return "not_found"
end tell
"#;

// ---------------------------------------------------------------------------
// Literals
// ---------------------------------------------------------------------------

/// A character inside a string literal: a backslash and a quotation mark are
/// escaped, a line end becomes a space.
pub open spec fn escaped_char(c: char) -> Seq<char> {
    if c == '\\' {
        seq!['\\', '\\']
    } else if c == '"' {
        seq!['\\', '"']
    } else if c == '\r' || c == '\n' {
        seq![' ']
    } else {
        seq![c]
    }
}

pub open spec fn escaped(s: Seq<char>) -> Seq<char>
    decreases s.len(),
{
    if s.len() == 0 {
        Seq::empty()
    } else {
        escaped(s.drop_last()) + escaped_char(s.last())
    }
}

/// The string literal that holds `s`.
pub open spec fn string_literal(s: Seq<char>) -> Seq<char> {
    seq!['"'] + escaped(s) + seq!['"']
}

/// `string_literal`, computed.
pub fn applescript_string_literal(value: &str) -> (out: String)
    ensures
        out@ == string_literal(value@),
{
    let chars: Vec<char> = to_chars(value);
    let mut out: String = String::new();
    out.push('"');
    let mut i: usize = 0;
    assert(out@ =~= seq!['"'] + escaped(chars@.take(0)));
    while i < chars.len()
        invariant
            i <= chars@.len(),
            out@ == seq!['"'] + escaped(chars@.take(i as int)),
        decreases chars@.len() - i,
    {
        let c: char = chars[i];
        let ghost before = out@;
        if c == '\\' {
            out.push('\\');
            out.push('\\');
        } else if c == '"' {
            out.push('\\');
            out.push('"');
        } else if c == '\r' || c == '\n' {
            out.push(' ');
        } else {
            out.push(c);
        }
        assert(out@ =~= before + escaped_char(c));
        assert(chars@.take(i + 1).drop_last() =~= chars@.take(i as int));
        assert(out@ =~= seq!['"'] + escaped(chars@.take(i + 1)));
        i += 1;
    }
    assert(chars@.take(chars@.len() as int) =~= chars@);
    out.push('"');
    assert(out@ =~= string_literal(value@));
    out
}

/// What follows the opening quotation mark of a literal, read as AppleScript
/// reads it: the text that the literal holds, and what follows its end.
pub open spec fn read_literal(s: Seq<char>) -> Option<(Seq<char>, Seq<char>)>
    decreases s.len(),
{
    if s.len() == 0 {
        None
    } else if s[0] == '"' {
        Some((Seq::empty(), s.skip(1)))
    } else if s[0] == '\\' {
        if s.len() < 2 {
            None
        } else {
            match read_literal(s.skip(2)) {
                Some((text, rest)) => Some((seq![s[1]] + text, rest)),
                None => None,
            }
        }
    } else {
        match read_literal(s.skip(1)) {
            Some((text, rest)) => Some((seq![s[0]] + text, rest)),
            None => None,
        }
    }
}

/// `s` with each line end replaced by a space.
pub open spec fn on_one_line(s: Seq<char>) -> Seq<char> {
    s.map_values(
        |c: char|
            if c == '\r' || c == '\n' {
                ' '
            } else {
                c
            },
    )
}

proof fn lemma_escaped_first(s: Seq<char>)
    requires
        s.len() > 0,
    ensures
        escaped(s) == escaped_char(s.first()) + escaped(s.drop_first()),
    decreases s.len(),
{
    if s.len() == 1 {
        assert(s.drop_last() =~= Seq::<char>::empty());
        assert(s.drop_first() =~= Seq::<char>::empty());
        assert(escaped(s) =~= escaped_char(s.first()) + escaped(s.drop_first()));
    } else {
        lemma_escaped_first(s.drop_last());
        assert(s.drop_last().drop_first() =~= s.drop_first().drop_last());
        assert(escaped(s) =~= escaped_char(s.first()) + escaped(s.drop_first()));
    }
}

/// Whatever text a literal is made of, and whatever follows it, reading the
/// literal gives that text on one line and stops where the literal ends: no text
/// can end its literal early.
pub proof fn law_string_literal_reads_back(s: Seq<char>, rest: Seq<char>)
    ensures
        string_literal(s).first() == '"',
        read_literal(string_literal(s).skip(1) + rest) == Some((on_one_line(s), rest)),
    decreases s.len(),
{
    let body = escaped(s) + seq!['"'] + rest;
    assert(string_literal(s).skip(1) + rest =~= body);
    if s.len() == 0 {
        assert(body.skip(1) =~= rest);
        assert(on_one_line(s) =~= Seq::<char>::empty());
    } else {
        let tail = s.drop_first();
        law_string_literal_reads_back(tail, rest);
        lemma_escaped_first(s);
        let next = escaped(tail) + seq!['"'] + rest;
        assert(string_literal(tail).skip(1) + rest =~= next);
        let c = s.first();
        assert(body =~= escaped_char(c) + next);
        assert(body.skip(escaped_char(c).len() as int) =~= next);
        let flat = on_one_line(s);
        assert(flat =~= seq![flat[0]] + on_one_line(tail));
        assert(body[0] == escaped_char(c)[0]);
        if c == '\\' || c == '"' {
            assert(body[1] == c);
        }
    }
}

pub open spec fn quoted_pids(pids: Seq<i32>) -> Seq<char>
    decreases pids.len(),
{
    if pids.len() == 0 {
        Seq::empty()
    } else if pids.len() == 1 {
        seq!['"'] + decimal(pids.last() as int) + seq!['"']
    } else {
        quoted_pids(pids.drop_last()) + ", "@ + seq!['"'] + decimal(pids.last() as int) + seq!['"']
    }
}

/// The list literal that holds `pids` as strings.
pub open spec fn pid_list_literal(pids: Seq<i32>) -> Seq<char> {
    seq!['{'] + quoted_pids(pids) + seq!['}']
}

/// `pid_list_literal`, computed.
pub fn applescript_pid_list_literal(pids: &[i32]) -> (out: String)
    ensures
        out@ == pid_list_literal(pids@),
{
    let mut out: String = String::new();
    out.push('{');
    let mut i: usize = 0;
    assert(out@ =~= seq!['{'] + quoted_pids(pids@.take(0)));
    while i < pids.len()
        invariant
            i <= pids@.len(),
            out@ == seq!['{'] + quoted_pids(pids@.take(i as int)),
        decreases pids@.len() - i,
    {
        let number: String = decimal_of(pids[i] as i64);
        if i > 0 {
            out.append(", ");
        }
        out.push('"');
        out.append(number.as_str());
        out.push('"');
        assert(pids@.take(i + 1).drop_last() =~= pids@.take(i as int));
        assert(out@ =~= seq!['{'] + quoted_pids(pids@.take(i + 1)));
        i += 1;
    }
    assert(pids@.take(pids@.len() as int) =~= pids@);
    out.push('}');
    assert(out@ =~= pid_list_literal(pids@));
    out
}

// ---------------------------------------------------------------------------
// Scripts
// ---------------------------------------------------------------------------

/// The script that collects a diagnostic report of `app_name`, whose processes
/// are those with one of `pids`.
pub open spec fn diagnostic_script(app_name: Seq<char>, pids: Seq<i32>) -> Seq<char> {
    COLLECT_DEPTH@ + decimal(MAX_SECURE_FIELD_TRAVERSAL_DEPTH as int) + COLLECT_ELEMENTS@ + decimal(
        MAX_SECURE_FIELD_TRAVERSAL_ELEMENTS as int,
    ) + COLLECT_FIELDS@ + decimal(MAX_SECURE_FIELDS as int) + COLLECT_WINDOWS@ + decimal(
        MAX_DIAGNOSTIC_COLLECTION_WINDOWS as int,
    ) + COLLECT_DIAGNOSTIC_ELEMENTS@ + decimal(MAX_DIAGNOSTIC_COLLECTION_ELEMENTS as int)
        + COLLECT_VALUE_CHARS@ + decimal(MAX_DIAGNOSTIC_PROTOCOL_VALUE_CHARS as int)
        + COLLECT_TARGET_NAME@ + string_literal(app_name) + COLLECT_TARGET_PIDS@
        + pid_list_literal(pids) + COLLECT_END@
}

fn push_count(out: &mut String, text: &str, count: usize)
    requires
        count <= 0xffff_ffff,
    ensures
        final(out)@ == old(out)@ + text@ + decimal(count as int),
{
    out.append(text);
    let number: String = decimal_of(count as i64);
    out.append(number.as_str());
}

/// `diagnostic_script`, computed.
pub fn build_applescript(app_name: &str, trusted_target_pids: &[i32]) -> (out: String)
    ensures
        out@ == diagnostic_script(app_name@, trusted_target_pids@),
{
    let name: String = applescript_string_literal(app_name);
    let pids: String = applescript_pid_list_literal(trusted_target_pids);
    let mut out: String = String::new();
    push_count(&mut out, COLLECT_DEPTH, MAX_SECURE_FIELD_TRAVERSAL_DEPTH);
    push_count(&mut out, COLLECT_ELEMENTS, MAX_SECURE_FIELD_TRAVERSAL_ELEMENTS);
    push_count(&mut out, COLLECT_FIELDS, MAX_SECURE_FIELDS);
    push_count(&mut out, COLLECT_WINDOWS, MAX_DIAGNOSTIC_COLLECTION_WINDOWS);
    push_count(&mut out, COLLECT_DIAGNOSTIC_ELEMENTS, MAX_DIAGNOSTIC_COLLECTION_ELEMENTS);
    push_count(&mut out, COLLECT_VALUE_CHARS, MAX_DIAGNOSTIC_PROTOCOL_VALUE_CHARS);
    out.append(COLLECT_TARGET_NAME);
    out.append(name.as_str());
    out.append(COLLECT_TARGET_PIDS);
    out.append(pids.as_str());
    out.append(COLLECT_END);
    assert(out@ =~= diagnostic_script(app_name@, trusted_target_pids@));
    out
}

/// The script that clicks a reconnect button of `app_name`.
pub open spec fn click_script(app_name: Seq<char>, pids: Seq<i32>) -> Seq<char> {
    CLICK_NAME@ + string_literal(app_name) + CLICK_PIDS@ + pid_list_literal(pids) + CLICK_END@
}

/// `click_script`, computed.
pub fn build_click_script(app_name: &str, pids: &[i32]) -> (out: String)
    ensures
        out@ == click_script(app_name@, pids@),
{
    let name: String = applescript_string_literal(app_name);
    let list: String = applescript_pid_list_literal(pids);
    let mut out: String = CLICK_NAME.to_owned();
    out.append(name.as_str());
    out.append(CLICK_PIDS);
    out.append(list.as_str());
    out.append(CLICK_END);
    out
}

/// The script that closes a disconnect dialog of `app_name`.
pub open spec fn close_script(app_name: Seq<char>, pids: Seq<i32>) -> Seq<char> {
    CLOSE_NAME@ + string_literal(app_name) + CLOSE_PIDS@ + pid_list_literal(pids) + CLOSE_END@
}

/// `close_script`, computed.
pub fn build_close_script(app_name: &str, pids: &[i32]) -> (out: String)
    ensures
        out@ == close_script(app_name@, pids@),
{
    let name: String = applescript_string_literal(app_name);
    let list: String = applescript_pid_list_literal(pids);
    let mut out: String = CLOSE_NAME.to_owned();
    out.append(name.as_str());
    out.append(CLOSE_PIDS);
    out.append(list.as_str());
    out.append(CLOSE_END);
    out
}

} // verus!
