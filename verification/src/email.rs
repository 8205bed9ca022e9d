//! The e-mail that invites someone to a team.

use vstd::prelude::*;
use vstd::string::*;

verus! {

/// The host through which the invitation is sent.
pub const SMTP_SERVER: &'static str = "smtp.gmail.com";

/// The name under which the invitation is sent.
pub const SENDER_NAME: &'static str = "Zeile Notebook";

/// Part 1 of the text of the invitation.
pub const BODY_0: &'static str = "\n            <!DOCTYPE html>\n            <html lang=\"pt-BR\">\n            <head>\n                <meta charset=\"UTF-8\">\n                <style>\n                    body {\n                        font-family: 'Inter', Arial, sans-serif;\n                        margin: 0;\n                        padding: 20px;\n                        background-color: #f4f4f5;\n                        color: #27272a;\n                    }\n                    .wrapper {\n                        max-width: 600px;\n                        margin: 0 auto;\n                    }\n                    .container {\n                        padding: 32px;\n                        border: 1px solid #e4e4e7;\n                        border-radius: 8px;\n                        background-color: #ffffff;\n                        box-shadow: 0 4px 6px -1px rgba(0, 0, 0, 0.1);\n                    }\n                    .logo {\n                        font-size: 20px;\n                        font-weight: 800;\n                        color: #10b981;\n                        margin-bottom: 24px;\n                        text-align: center;\n                    }\n                    .header {\n                        font-size: 22px;\n                        font-weight: 600;\n                        color: #18181b;\n                        margin-bottom: 16px;\n                        text-align: center;\n                    }\n                    .content {\n                        font-size: 15px;\n                        line-height: 1.6;\n                        color: #3f3f46;\n                        margin-bottom: 24px;\n                    }\n                    .highlight {\n                        font-weight: 600;\n                        color: #18181b;\n                    }\n                    .button-container {\n                        text-align: center;\n                        margin: 32px 0;\n                    }\n                    .button {\n                        background-color: #10b981;\n                        color: #ffffff !important;\n                        padding: 12px 24px;\n                        text-decoration: none;\n                        border-radius: 6px;\n                        font-weight: 600;\n                        display: inline-block;\n                        transition: background-color 0.2s;\n                    }\n                    .button:hover {\n                        background-color: #059669;\n                    }\n                    .footer {\n                        font-size: 13px;\n                        color: #71717a;\n                        text-align: center;\n                        margin-top: 32px;\n                        border-top: 1px solid #e4e4e7;\n                        padding-top: 16px;\n                    }\n                </style>\n            </head>\n            <body>\n                <div class=\"wrapper\">\n                    <div class=\"container\">\n                        <div class=\"logo\">Zeile Notebook</div>\n\n                        <div class=\"header\">Você foi convidado!</div>\n\n                        <div class=\"content\">\n                            Olá, <span class=\"highlight\">";

/// Part 2 of the text of the invitation.
pub const BODY_1: &'static str = "</span>.\n                            <br><br>\n                            Você foi convidado por <span class=\"highlight\">";

/// Part 3 of the text of the invitation.
pub const BODY_2: &'static str = "</span> para se juntar à equipe <strong>";

/// Part 4 of the text of the invitation.
pub const BODY_3: &'static str = "</strong> no Zeile Notebook.\n                            <br><br>\n                            Ao entrar nesta equipe, você poderá colaborar em tempo real, compartilhar anotações e visualizar projetos junto com os outros membros.\n                        </div>\n\n                        <div class=\"button-container\">\n                            <a href=\"";

/// Part 5 of the text of the invitation.
pub const BODY_4: &'static str = "\" class=\"button\">Aceitar Convite</a>\n                        </div>\n\n                        <div class=\"content\" style=\"font-size: 14px;\">\n                            Se o botão acima não funcionar, copie e cole a URL abaixo no seu navegador:\n                            <br>\n                            <a href=\"";

/// Part 6 of the text of the invitation.
pub const BODY_5: &'static str = "\" style=\"color: #10b981; word-break: break-all;\">";

/// Part 7 of the text of the invitation.
pub const BODY_6: &'static str = "</a>\n                            <br><br>\n                            Se você não conhece ";

/// Part 8 of the text of the invitation.
pub const BODY_7: &'static str = " ou não esperava este convite, pode ignorar este e-mail com segurança.\n                        </div>\n\n                        <div class=\"footer\">\n                            &copy; 2026 Zeile Notebook. Todos os direitos reservados.\n                        </div>\n                    </div>\n                </div>\n            </body>\n            </html>\n        ";

/// The subject of the invitation to the team `team_name`.
pub fn invitation_subject(team_name: &str) -> (r: String)
    ensures
        r@ == "Zeile Notebook | Convite para Equipe "@ + team_name@,
{
    let mut r = String::from_str("Zeile Notebook | Convite para Equipe ");
    r.append(team_name);
    r
}

/// The text of the invitation, as HTML: it greets the invited by `name`,
/// names the member `invited_by` who invites and the team `team_name`, and
/// holds `link` three times, once behind the button and twice written out.
pub fn invitation_body(name: &str, link: &str, team_name: &str, invited_by: &str) -> (r: String)
    ensures
        r@ == BODY_0@ + name@ + BODY_1@ + invited_by@ + BODY_2@ + team_name@ + BODY_3@ + link@ + BODY_4@ + link@ + BODY_5@ + link@ + BODY_6@ + invited_by@ + BODY_7@,
{
    let mut r = String::from_str(BODY_0);
    r.append(name);
    r.append(BODY_1);
    r.append(invited_by);
    r.append(BODY_2);
    r.append(team_name);
    r.append(BODY_3);
    r.append(link);
    r.append(BODY_4);
    r.append(link);
    r.append(BODY_5);
    r.append(link);
    r.append(BODY_6);
    r.append(invited_by);
    r.append(BODY_7);
    r
}

} // verus!
